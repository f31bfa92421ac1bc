//! The grid engine: construction, heading, the tick and food placement.

use crate::cell::{
    step_from, Direction, Position, SizeError, Tick, EMPTY, FOOD, MAX_SIDE, WALL,
};
use crate::model::{
    advanced, aged, age, fed, first_column, grown, has_food, has_free, head_of, in_grid,
    initial_cell, initial_cells, initial_state, is_body, is_free, put, square, tick, wf,
    with_direction, with_food, EngineState,
};
use crate::proofs::{
    lemma_body_fits, lemma_food_keeps_wf, lemma_head, lemma_initial_wf, lemma_tick_keeps_wf,
};
use crate::random::random_below;
use vstd::prelude::*;

verus! {

/// The rows of a grid as sequences of integers.
pub open spec fn cells_of(grid: &Vec<Vec<i64>>) -> Seq<Seq<int>> {
    Seq::new(grid@.len(), |r: int| Seq::new(grid@[r]@.len(), |c: int| grid@[r]@[c] as int))
}

/// Whether cell `a` comes before cell `b` when the grid is read row by row.
pub open spec fn row_major_before(a: (int, int), b: (int, int)) -> bool {
    a.0 < b.0 || (a.0 == b.0 && a.1 < b.1)
}

/// A square grid with a wall ring, one snake and at most one food item.
pub struct GridEngine {
    grid: Vec<Vec<i64>>,
    length: u32,
    score: u32,
    direction: Direction,
}

impl View for GridEngine {
    type V = EngineState;

    closed spec fn view(&self) -> EngineState {
        EngineState {
            cells: cells_of(&self.grid),
            length: self.length as int,
            score: self.score as int,
            direction: self.direction,
        }
    }
}

impl GridEngine {
    /// An engine of side `grid_size` with a snake of `length` cells and no
    /// food yet, or the error that names the smallest side that would do.
    pub fn without_food(length: u16, grid_size: u16) -> (made: Result<GridEngine, SizeError>)
        requires
            1 <= length,
        ensures
            grid_size < length + 2 ==> made == Err::<GridEngine, SizeError>(
                SizeError { min_size: (length + 2) as u32 },
            ),
            grid_size >= length + 2 ==> made is Ok && made->Ok_0@ == initial_state(
                length as int,
                grid_size as int,
            ) && wf(made->Ok_0@),
    {
        let min_size: u32 = length as u32 + 2;
        if (grid_size as u32) < min_size {
            return Err(SizeError { min_size });
        }
        let n: usize = grid_size as usize;
        let middle: usize = n / 2;
        let first: usize = (n - length as usize) / 2;
        let end: usize = first + length as usize;
        let mut grid: Vec<Vec<i64>> = Vec::new();
        let mut r: usize = 0;
        while r < n
            invariant
                r <= n,
                n == grid_size,
                middle == n / 2,
                first == first_column(length as int, n as int),
                end == first + length,
                1 <= length,
                length + 2 <= n,
                grid@.len() == r,
                forall|i: int| 0 <= i < r ==> (#[trigger] grid@[i])@.len() == n,
                forall|i: int, j: int|
                    0 <= i < r && 0 <= j < n ==> #[trigger] grid@[i]@[j] == initial_cell(
                        length as int,
                        n as int,
                        i,
                        j,
                    ),
            decreases n - r,
        {
            let mut row: Vec<i64> = Vec::new();
            let mut c: usize = 0;
            while c < n
                invariant
                    c <= n,
                    r < n,
                    n == grid_size,
                    middle == n / 2,
                    first == first_column(length as int, n as int),
                    end == first + length,
                    1 <= length,
                    length + 2 <= n,
                    row@.len() == c,
                    forall|j: int|
                        0 <= j < c ==> #[trigger] row@[j] == initial_cell(
                            length as int,
                            n as int,
                            r as int,
                            j,
                        ),
                decreases n - c,
            {
                let v: i64 = if r == 0 || r == n - 1 || c == 0 || c == n - 1 {
                    WALL
                } else if r == middle && first <= c && c < end {
                    (end - c) as i64
                } else {
                    EMPTY
                };
                row.push(v);
                c += 1;
            }
            grid.push(row);
            r += 1;
        }
        let engine = GridEngine {
            grid,
            length: length as u32,
            score: 0,
            direction: Direction::Right,
        };
        proof {
            assert(engine@.cells =~~= initial_cells(length as int, n as int));
            lemma_initial_wf(length as int, n as int);
        }
        Ok(engine)
    }

    /// An engine of side `grid_size` with a snake of `length` cells and food
    /// on a free cell drawn uniformly, or the error that names the smallest
    /// side that would do.
    ///
    /// The snake of the one grid without a free cell, of side 3, gets no food.
    pub fn new(length: u16, grid_size: u16) -> (made: Result<GridEngine, SizeError>)
        requires
            1 <= length,
        ensures
            grid_size < length + 2 ==> made == Err::<GridEngine, SizeError>(
                SizeError { min_size: (length + 2) as u32 },
            ),
            grid_size >= length + 2 ==> made is Ok && wf(made->Ok_0@) && fed(
                initial_state(length as int, grid_size as int),
                made->Ok_0@,
            ),
    {
        match GridEngine::without_food(length, grid_size) {
            Ok(mut engine) => {
                proof {
                    lemma_initial_wf(length as int, grid_size as int);
                }
                engine.place_food();
                Ok(engine)
            },
            Err(e) => Err(e),
        }
    }

    /// Sets the heading of the next tick. Nothing else changes, and the
    /// heading is not held against the one before.
    pub fn set_direction(&mut self, direction: Direction)
        ensures
            final(self)@ == with_direction(old(self)@, direction),
    {
        self.direction = direction;
    }

    /// The grid, row by row.
    pub fn grid(&self) -> (grid: &Vec<Vec<i64>>)
        ensures
            cells_of(grid) == self@.cells,
    {
        &self.grid
    }

    /// The number of food items eaten.
    pub fn score(&self) -> (score: u32)
        ensures
            score == self@.score,
    {
        self.score
    }

    /// The number of cells of the snake.
    pub fn length(&self) -> (length: u32)
        ensures
            length == self@.length,
    {
        self.length
    }

    /// The heading of the next tick.
    pub fn direction(&self) -> (direction: Direction)
        ensures
            direction == self@.direction,
    {
        self.direction
    }

    /// The cell that holds the food, if one does.
    pub fn food(&self) -> (found: Option<Position>)
        requires
            square(self@.cells),
        ensures
            match found {
                Some(p) => in_grid(self@.cells.len() as int, p@.0, p@.1)
                    && self@.cells[p@.0][p@.1] == FOOD && forall|r: int, c: int|
                    in_grid(self@.cells.len() as int, r, c) && row_major_before((r, c), p@)
                        ==> #[trigger] self@.cells[r][c] != FOOD,
                None => !has_food(self@.cells),
            },
    {
        let n = self.grid.len();
        let mut r: usize = 0;
        while r < n
            invariant
                r <= n,
                n == self.grid@.len(),
                square(self@.cells),
                forall|i: int, j: int|
                    0 <= i < r && 0 <= j < n ==> #[trigger] self@.cells[i][j] != FOOD,
            decreases n - r,
        {
            let mut c: usize = 0;
            assert(self@.cells[r as int].len() == n);
            while c < n
                invariant
                    c <= n,
                    r < n,
                    n == self.grid@.len(),
                    n == self.grid@[r as int]@.len(),
                    square(self@.cells),
                    forall|i: int, j: int|
                        0 <= i < r && 0 <= j < n ==> #[trigger] self@.cells[i][j] != FOOD,
                    forall|j: int| 0 <= j < c ==> #[trigger] self@.cells[r as int][j] != FOOD,
                decreases n - c,
            {
                if self.grid[r][c] == FOOD {
                    return Some(Position { row: r, col: c });
                }
                c += 1;
            }
            r += 1;
        }
        None
    }

    /// The free cells, read row by row: each cell inside the walls that is
    /// empty, once.
    pub fn empty_cells(&self) -> (free: Vec<Position>)
        requires
            square(self@.cells),
        ensures
            forall|k: int|
                0 <= k < free@.len() ==> is_free(
                    self@.cells,
                    (#[trigger] free@[k])@.0,
                    free@[k]@.1,
                ),
            forall|r: int, c: int| #[trigger]
                is_free(self@.cells, r, c) ==> exists|k: int|
                    0 <= k < free@.len() && (#[trigger] free@[k])@ == (r, c),
            forall|j: int, k: int|
                0 <= j < k < free@.len() ==> row_major_before(
                    (#[trigger] free@[j])@,
                    (#[trigger] free@[k])@,
                ),
    {
        let n = self.grid.len();
        let mut free: Vec<Position> = Vec::new();
        if n < 3 {
            return free;
        }
        let mut r: usize = 1;
        while r < n - 1
            invariant
                3 <= n,
                1 <= r <= n - 1,
                n == self.grid@.len(),
                square(self@.cells),
                forall|k: int|
                    0 <= k < free@.len() ==> is_free(
                        self@.cells,
                        (#[trigger] free@[k])@.0,
                        free@[k]@.1,
                    ) && free@[k]@.0 < r,
                forall|i: int, j: int| #[trigger]
                    is_free(self@.cells, i, j) && i < r ==> exists|k: int|
                        0 <= k < free@.len() && (#[trigger] free@[k])@ == (i, j),
                forall|j: int, k: int|
                    0 <= j < k < free@.len() ==> row_major_before(
                        (#[trigger] free@[j])@,
                        (#[trigger] free@[k])@,
                    ),
            decreases n - r,
        {
            let mut c: usize = 1;
            assert(self@.cells[r as int].len() == n);
            while c < n - 1
                invariant
                    3 <= n,
                    1 <= r < n - 1,
                    1 <= c <= n - 1,
                    n == self.grid@.len(),
                    n == self.grid@[r as int]@.len(),
                    square(self@.cells),
                    forall|k: int|
                        0 <= k < free@.len() ==> is_free(
                            self@.cells,
                            (#[trigger] free@[k])@.0,
                            free@[k]@.1,
                        ) && row_major_before(free@[k]@, (r as int, c as int)),
                    forall|i: int, j: int| #[trigger]
                        is_free(self@.cells, i, j) && row_major_before((i, j), (r as int, c as int))
                            ==> exists|k: int|
                            0 <= k < free@.len() && (#[trigger] free@[k])@ == (i, j),
                    forall|j: int, k: int|
                        0 <= j < k < free@.len() ==> row_major_before(
                            (#[trigger] free@[j])@,
                            (#[trigger] free@[k])@,
                        ),
                decreases n - c,
            {
                if self.grid[r][c] == EMPTY {
                    let ghost before = free@;
                    free.push(Position { row: r, col: c });
                    proof {
                        let last = before.len() as int;
                        assert(free@[last]@ == (r as int, c as int));
                        assert forall|i: int, j: int| #[trigger]
                            is_free(self@.cells, i, j) && row_major_before(
                                (i, j),
                                (r as int, c + 1),
                            ) implies exists|k: int|
                            0 <= k < free@.len() && (#[trigger] free@[k])@ == (i, j) by {
                            if (i, j) == (r as int, c as int) {
                                assert(free@[last]@ == (i, j));
                            } else {
                                let k = choose|k: int|
                                    0 <= k < before.len() && (#[trigger] before[k])@ == (i, j);
                                assert(free@[k]@ == (i, j));
                            }
                        }
                    }
                }
                c += 1;
            }
            r += 1;
        }
        free
    }

    /// Puts food on cell `p` if `p` is free and the grid holds no food, and
    /// says whether it did.
    pub fn place_food_at(&mut self, p: Position) -> (placed: bool)
        requires
            wf(old(self)@),
        ensures
            placed == (!has_food(old(self)@.cells) && is_free(old(self)@.cells, p@.0, p@.1)),
            placed ==> final(self)@ == with_food(old(self)@, p@.0, p@.1),
            !placed ==> final(self)@ == old(self)@,
            wf(final(self)@),
    {
        let n = self.grid.len();
        if n < 3 || p.row < 1 || p.row >= n - 1 || p.col < 1 || p.col >= n - 1 {
            return false;
        }
        assert(self@.cells[p.row as int].len() == n);
        if self.grid[p.row][p.col] != EMPTY {
            return false;
        }
        if self.food().is_some() {
            return false;
        }
        self.put_food(p);
        true
    }

    /// Puts food on a free cell drawn uniformly, if there is a free cell and
    /// the grid holds no food, and says whether it did.
    ///
    /// The free cells are listed first and one of them is drawn by its place
    /// in the list: every free cell is as likely as any other, and the draw
    /// ends. On a grid without a free cell a search for one would never end;
    /// there nothing is drawn and nothing is placed.
    pub fn place_food(&mut self) -> (placed: bool)
        requires
            wf(old(self)@),
        ensures
            placed == (!has_food(old(self)@.cells) && has_free(old(self)@.cells)),
            placed ==> exists|r: int, c: int|
                is_free(old(self)@.cells, r, c) && final(self)@ == #[trigger] with_food(
                    old(self)@,
                    r,
                    c,
                ),
            !placed ==> final(self)@ == old(self)@,
            wf(final(self)@),
    {
        if self.food().is_some() {
            return false;
        }
        let free = self.empty_cells();
        if free.len() == 0 {
            assert(!has_free(self@.cells)) by {
                if has_free(self@.cells) {
                    let (r, c) = choose|r: int, c: int| #[trigger] is_free(self@.cells, r, c);
                    assert(is_free(self@.cells, r, c));
                }
            }
            return false;
        }
        let k = random_below(free.len());
        let p = free[k];
        assert(is_free(self@.cells, p@.0, p@.1));
        self.put_food(p);
        true
    }

    /// Writes food to the free cell `p` of a grid without food. That there
    /// is a free cell is for the caller to see to.
    fn put_food(&mut self, p: Position)
        requires
            wf(old(self)@),
            !has_food(old(self)@.cells),
            is_free(old(self)@.cells, p@.0, p@.1),
        ensures
            final(self)@ == with_food(old(self)@, p@.0, p@.1),
            wf(final(self)@),
    {
        let ghost before = self@;
        assert(before.cells[p@.0].len() == before.cells.len());
        self.grid[p.row][p.col] = FOOD;
        proof {
            assert(self@.cells =~~= with_food(before, p@.0, p@.1).cells);
            lemma_food_keeps_wf(before, p@.0, p@.1);
        }
    }

    /// One tick without the placement of new food.
    ///
    /// One pass over the cells inside the walls ages the body, vacates the
    /// tail and finds the head. The cell in front of the head is then judged
    /// by what it held before the pass: an empty cell takes the head; the
    /// food cell takes the head, gives the tail its cell back one tick older,
    /// and raises length and score; any other cell is a collision, and the
    /// grid stays as the pass left it.
    pub fn step(&mut self) -> (outcome: Tick)
        requires
            wf(old(self)@),
        ensures
            final(self)@ == tick(old(self)@).0,
            outcome == tick(old(self)@).1,
            outcome != Tick::Collided ==> wf(final(self)@),
            outcome == Tick::Grew ==> !has_food(final(self)@.cells),
    {
        let ghost before = self@;
        let ghost body = choose|body: Seq<(int, int)>| is_body(before.cells, before.length, body);
        proof {
            lemma_head(before.cells, before.length, body);
            lemma_body_fits(before.cells, before.length, body);
            assert((before.cells.len() - 2) * (before.cells.len() - 2) <= (MAX_SIDE - 2) * (MAX_SIDE
                - 2)) by (nonlinear_arith)
                requires
                    3 <= before.cells.len() <= MAX_SIDE,
            ;
        }
        let n = self.grid.len();
        let length: i64 = self.length as i64;
        proof {
            assert forall|i: int| 0 <= i < n implies (#[trigger] self.grid@[i])@.len() == n by {
                assert(before.cells[i].len() == n);
            }
            assert forall|i: int, j: int| 0 <= i < n && 0 <= j < n implies (
            #[trigger] self.grid@[i]@[j]) == before.cells[i][j] by {}
        }
        let mut head = Position { row: 0, col: 0 };
        let mut tail = Position { row: 0, col: 0 };
        let mut r: usize = 1;
        while r < n - 1
            invariant
                3 <= n,
                1 <= r <= n - 1,
                n == before.cells.len(),
                n == self.grid@.len(),
                forall|i: int| 0 <= i < n ==> (#[trigger] self.grid@[i])@.len() == n,
                wf(before),
                is_body(before.cells, before.length, body),
                length == before.length,
                length < 0x1_0000_0000,
                self.length == before.length,
                self.score == before.score,
                self.direction == before.direction,
                forall|i: int, j: int|
                    0 <= i < n && 0 <= j < n ==> #[trigger] self.grid@[i]@[j] == (if i < r {
                        age(before.cells[i][j], before.length)
                    } else {
                        before.cells[i][j]
                    }),
                body[0].0 < r ==> head@ == body[0],
                body[length - 1].0 < r ==> tail@ == body[length - 1],
            decreases n - r,
        {
            let mut c: usize = 1;
            while c < n - 1
                invariant
                    3 <= n,
                    1 <= r < n - 1,
                    1 <= c <= n - 1,
                    n == before.cells.len(),
                    n == self.grid@.len(),
                    forall|i: int| 0 <= i < n ==> (#[trigger] self.grid@[i])@.len() == n,
                    wf(before),
                    is_body(before.cells, before.length, body),
                    length == before.length,
                    length < 0x1_0000_0000,
                    self.length == before.length,
                    self.score == before.score,
                    self.direction == before.direction,
                    forall|i: int, j: int|
                        0 <= i < n && 0 <= j < n ==> #[trigger] self.grid@[i]@[j] == (if i < r || (i
                            == r && j < c) {
                            age(before.cells[i][j], before.length)
                        } else {
                            before.cells[i][j]
                        }),
                    row_major_before(body[0], (r as int, c as int)) ==> head@ == body[0],
                    row_major_before(body[length - 1], (r as int, c as int)) ==> tail@
                        == body[length - 1],
                decreases n - c,
            {
                let v = self.grid[r][c];
                proof {
                    assert(v == before.cells[r as int][c as int]);
                    if v > 0 {
                        assert(body[v - 1] == (r as int, c as int));
                    }
                    assert(before.cells[body[0].0][body[0].1] == 1);
                    assert(before.cells[body[length - 1].0][body[length - 1].1] == length);
                }
                if v > 0 {
                    if v == 1 {
                        head = Position { row: r, col: c };
                    }
                    if v == length {
                        tail = Position { row: r, col: c };
                        self.grid[r][c] = EMPTY;
                    } else {
                        self.grid[r][c] = v + 1;
                    }
                }
                c += 1;
            }
            proof {
                assert(before.cells[r as int][n - 1] == WALL);
            }
            r += 1;
        }
        proof {
            assert forall|j: int| 0 <= j < n implies #[trigger] before.cells[n - 1][j] <= 0 by {
                assert(before.cells[n - 1][j] == WALL);
            }
            assert(cells_of(&self.grid) =~~= aged(before.cells, before.length));
            assert(head@ == head_of(before.cells));
        }
        let target = match self.direction {
            Direction::Up => Position { row: head.row - 1, col: head.col },
            Direction::Down => Position { row: head.row + 1, col: head.col },
            Direction::Left => Position { row: head.row, col: head.col - 1 },
            Direction::Right => Position { row: head.row, col: head.col + 1 },
        };
        assert(target@ == step_from(head_of(before.cells), before.direction));
        let ghost found = before.cells[target@.0][target@.1];
        if target.row == tail.row && target.col == tail.col {
            assert(found == length);
            return Tick::Collided;
        }
        let now = self.grid[target.row][target.col];
        proof {
            assert(now == age(found, before.length));
            if found > 0 {
                assert(body[found - 1] == target@);
            }
            assert(found != length);
            assert(found >= FOOD);
        }
        if now == EMPTY {
            self.grid[target.row][target.col] = 1;
            proof {
                assert(self@.cells =~~= put(aged(before.cells, before.length), target@, 1));
                lemma_tick_keeps_wf(before);
            }
            Tick::Moved
        } else if now == FOOD {
            proof {
                lemma_tick_keeps_wf(before);
                let after = tick(before).0;
                let longer = choose|longer: Seq<(int, int)>|
                    is_body(after.cells, after.length, longer);
                lemma_body_fits(after.cells, after.length, longer);
            }
            self.length = self.length + 1;
            self.score = self.score + 1;
            self.grid[tail.row][tail.col] = length + 1;
            self.grid[target.row][target.col] = 1;
            proof {
                assert(self@.cells =~~= put(grown(before.cells), target@, 1));
            }
            Tick::Grew
        } else {
            Tick::Collided
        }
    }

    /// One tick: the snake moves one cell in its heading, and where it has
    /// eaten, new food is put on a free cell drawn uniformly. Says whether the
    /// snake is still alive.
    ///
    /// After a meal that leaves no cell free the grid holds no food. After a
    /// collision the engine is no longer fit for another tick.
    pub fn advance(&mut self) -> (alive: bool)
        requires
            wf(old(self)@),
        ensures
            alive == (tick(old(self)@).1 != Tick::Collided),
            advanced(old(self)@, final(self)@),
            alive ==> wf(final(self)@),
    {
        match self.step() {
            Tick::Moved => true,
            Tick::Grew => {
                self.place_food();
                true
            },
            Tick::Collided => false,
        }
    }
}

} // verus!
