//! Lemmas about the model: where the head is, how long a snake can be, and
//! that a tick, a new grid and a placement of food keep the invariant.

use crate::cell::{adjacent, step_from, Tick, EMPTY, FOOD, MAX_SIDE, WALL};
use crate::model::{
    aged, first_column, food_ok, grown, has_food, head_of, in_grid, initial_cells, initial_state,
    interior, is_body, is_free, put, snake_ok, square, tick, values_ok, walls_ok, wf, with_food,
    EngineState,
};
use vstd::prelude::*;
use vstd::set_lib::{lemma_int_range, lemma_len_subset, set_int_range};

verus! {

/// The head is the first cell of the body.
pub proof fn lemma_head(cells: Seq<Seq<int>>, length: int, body: Seq<(int, int)>)
    requires
        is_body(cells, length, body),
        1 <= length,
    ensures
        head_of(cells) == body[0],
        interior(cells.len() as int, head_of(cells).0, head_of(cells).1),
{
    let p = body[0];
    assert(in_grid(cells.len() as int, p.0, p.1) && cells[p.0][p.1] == 1);
    let q = head_of(cells);
    assert(in_grid(cells.len() as int, q.0, q.1) && cells[q.0][q.1] == 1);
    assert(body[cells[q.0][q.1] - 1] == (q.0, q.1));
}

/// Two cells inside a grid of inner side `m` that have one row-major index
/// are one cell.
proof fn lemma_index_injective(m: int, a: int, b: int, a2: int, b2: int)
    requires
        0 <= b < m,
        0 <= b2 < m,
        a * m + b == a2 * m + b2,
    ensures
        a == a2,
        b == b2,
{
    assert(a == a2) by (nonlinear_arith)
        requires
            0 <= b < m,
            0 <= b2 < m,
            a * m + b == a2 * m + b2,
    {
        if a < a2 {
            assert((a2 - a) * m >= m);
        } else if a > a2 {
            assert((a - a2) * m >= m);
        }
    }
}

/// The row-major index of a cell inside a grid of inner side `m` is below
/// `m * m`.
proof fn lemma_index_bound(m: int, a: int, b: int)
    requires
        0 <= a < m,
        0 <= b < m,
    ensures
        0 <= a * m + b < m * m,
{
    assert(0 <= a * m + b < m * m) by (nonlinear_arith)
        requires
            0 <= a < m,
            0 <= b < m,
    {
        assert(a * m <= (m - 1) * m);
    }
}

/// A snake is no longer than the grid has cells inside its walls.
pub proof fn lemma_body_fits(cells: Seq<Seq<int>>, length: int, body: Seq<(int, int)>)
    requires
        is_body(cells, length, body),
        3 <= cells.len(),
        0 <= length,
    ensures
        length <= (cells.len() - 2) * (cells.len() - 2),
{
    let m = cells.len() - 2;
    let codes = Seq::new(length as nat, |k: int| (body[k].0 - 1) * m + (body[k].1 - 1));
    assert forall|i: int, j: int|
        0 <= i < codes.len() && 0 <= j < codes.len() && i != j implies codes[i] != codes[j] by {
        if codes[i] == codes[j] {
            lemma_index_injective(m, body[i].0 - 1, body[i].1 - 1, body[j].0 - 1, body[j].1 - 1);
            assert(cells[body[i].0][body[i].1] == i + 1);
            assert(cells[body[j].0][body[j].1] == j + 1);
        }
    }
    codes.unique_seq_to_set();
    let range = set_int_range(0, m * m);
    assert(0 <= m * m) by (nonlinear_arith)
        requires
            1 <= m,
    ;
    lemma_int_range(0, m * m);
    assert forall|x: int| codes.to_set().contains(x) implies range.contains(x) by {
        let k = choose|k: int| 0 <= k < codes.len() && codes[k] == x;
        lemma_index_bound(m, body[k].0 - 1, body[k].1 - 1);
    }
    lemma_len_subset(codes.to_set(), range);
}

/// A tick that moves the snake keeps the invariant.
proof fn lemma_move_keeps_wf(s: EngineState, body: Seq<(int, int)>)
    requires
        wf(s),
        is_body(s.cells, s.length, body),
        tick(s).1 == Tick::Moved,
    ensures
        wf(tick(s).0),
{
    let n = s.cells.len() as int;
    let len = s.length;
    lemma_head(s.cells, len, body);
    let head = body[0];
    let target = step_from(head, s.direction);
    assert(in_grid(n, target.0, target.1));
    assert(s.cells[target.0][target.1] == EMPTY);
    assert(interior(n, target.0, target.1));
    assert(adjacent(target, head));
    let after = tick(s).0.cells;
    assert(after == put(aged(s.cells, len), target, 1));
    let next = seq![target] + body.drop_last();
    assert(next.len() == len);
    assert forall|k: int| 0 <= k < len implies interior(n, (#[trigger] next[k]).0, next[k].1)
        && after[next[k].0][next[k].1] == k + 1 by {
        if k > 0 {
            assert(next[k] == body[k - 1]);
            assert(s.cells[body[k - 1].0][body[k - 1].1] == k);
        }
    }
    assert forall|r: int, c: int| in_grid(n, r, c) && #[trigger] after[r][c] > 0 implies after[r][c]
        <= len && next[after[r][c] - 1] == (r, c) by {
        if (r, c) != target {
            let v = s.cells[r][c];
            assert(v > 0 && v != len);
            assert(body[v - 1] == (r, c));
            assert(next[v] == body[v - 1]);
        }
    }
    assert forall|j: int, k: int| 0 <= j && k == j + 1 && k < len implies adjacent(
        #[trigger] next[j],
        #[trigger] next[k],
    ) by {
        if j > 0 {
            assert(next[j] == body[j - 1]);
            assert(next[k] == body[k - 1]);
            assert(adjacent(body[j - 1], body[k - 1]));
        } else {
            assert(next[k] == body[0]);
        }
    }
    assert(is_body(after, len, next));
    assert(square(after));
    assert(walls_ok(after)) by {
        assert forall|r: int, c: int| in_grid(n, r, c) implies (#[trigger] after[r][c] == WALL
            <==> !interior(n, r, c)) by {
            assert(s.cells[r][c] == WALL <==> !interior(n, r, c));
        }
    }
    assert(values_ok(after)) by {
        assert forall|r: int, c: int| in_grid(n, r, c) implies #[trigger] after[r][c] >= FOOD by {
            assert(s.cells[r][c] >= FOOD);
        }
    }
    assert(food_ok(after)) by {
        assert forall|r: int, c: int, r2: int, c2: int|
            in_grid(n, r, c) && in_grid(n, r2, c2) && #[trigger] after[r][c] == FOOD
                && #[trigger] after[r2][c2] == FOOD implies r == r2 && c == c2 by {
            assert(s.cells[r][c] == FOOD);
            assert(s.cells[r2][c2] == FOOD);
        }
    }
}

/// A tick on which the snake eats keeps the invariant, and leaves no food.
proof fn lemma_growth_keeps_wf(s: EngineState, body: Seq<(int, int)>)
    requires
        wf(s),
        is_body(s.cells, s.length, body),
        tick(s).1 == Tick::Grew,
    ensures
        wf(tick(s).0),
        !has_food(tick(s).0.cells),
{
    let n = s.cells.len() as int;
    let len = s.length;
    lemma_head(s.cells, len, body);
    let head = body[0];
    let target = step_from(head, s.direction);
    assert(in_grid(n, target.0, target.1));
    assert(s.cells[target.0][target.1] == FOOD);
    assert(interior(n, target.0, target.1));
    assert(adjacent(target, head));
    let after = tick(s).0.cells;
    assert(after == put(grown(s.cells), target, 1));
    let next = seq![target] + body;
    assert(next.len() == len + 1);
    assert forall|k: int| 0 <= k < len + 1 implies interior(n, (#[trigger] next[k]).0, next[k].1)
        && after[next[k].0][next[k].1] == k + 1 by {
        if k > 0 {
            assert(next[k] == body[k - 1]);
            assert(s.cells[body[k - 1].0][body[k - 1].1] == k);
        }
    }
    assert forall|r: int, c: int| in_grid(n, r, c) && #[trigger] after[r][c] > 0 implies after[r][c]
        <= len + 1 && next[after[r][c] - 1] == (r, c) by {
        if (r, c) != target {
            let v = s.cells[r][c];
            assert(v > 0);
            assert(body[v - 1] == (r, c));
            assert(next[v] == body[v - 1]);
        }
    }
    assert forall|j: int, k: int| 0 <= j && k == j + 1 && k < len + 1 implies adjacent(
        #[trigger] next[j],
        #[trigger] next[k],
    ) by {
        if j > 0 {
            assert(next[j] == body[j - 1]);
            assert(next[k] == body[k - 1]);
            assert(adjacent(body[j - 1], body[k - 1]));
        } else {
            assert(next[k] == body[0]);
        }
    }
    assert(is_body(after, len + 1, next));
    assert(square(after));
    assert(walls_ok(after)) by {
        assert forall|r: int, c: int| in_grid(n, r, c) implies (#[trigger] after[r][c] == WALL
            <==> !interior(n, r, c)) by {
            assert(s.cells[r][c] == WALL <==> !interior(n, r, c));
        }
    }
    assert(values_ok(after)) by {
        assert forall|r: int, c: int| in_grid(n, r, c) implies #[trigger] after[r][c] >= FOOD by {
            assert(s.cells[r][c] >= FOOD);
        }
    }
    assert forall|r: int, c: int| in_grid(n, r, c) implies #[trigger] after[r][c] != FOOD by {
        if after[r][c] == FOOD {
            assert(s.cells[r][c] == FOOD);
            assert(s.cells[target.0][target.1] == FOOD);
        }
    }
    assert(food_ok(after));
}

/// A tick without a collision keeps the invariant.
pub proof fn lemma_tick_keeps_wf(s: EngineState)
    requires
        wf(s),
        tick(s).1 != Tick::Collided,
    ensures
        wf(tick(s).0),
        tick(s).1 == Tick::Grew ==> !has_food(tick(s).0.cells),
{
    let body = choose|body: Seq<(int, int)>| is_body(s.cells, s.length, body);
    if tick(s).1 == Tick::Moved {
        lemma_move_keeps_wf(s, body);
    } else {
        lemma_growth_keeps_wf(s, body);
    }
}

/// The state of a new engine meets the invariant.
pub proof fn lemma_initial_wf(length: int, n: int)
    requires
        1 <= length,
        length + 2 <= n <= MAX_SIDE,
    ensures
        wf(initial_state(length, n)),
        !has_food(initial_cells(length, n)),
{
    let cells = initial_cells(length, n);
    let first = first_column(length, n);
    let body = Seq::new(length as nat, |k: int| (n / 2, first + length - 1 - k));
    assert(1 <= first && first + length <= n - 1);
    assert(1 <= n / 2 < n - 1);
    assert forall|k: int| 0 <= k < length implies interior(n, (#[trigger] body[k]).0, body[k].1)
        && cells[body[k].0][body[k].1] == k + 1 by {}
    assert forall|r: int, c: int| in_grid(n, r, c) && #[trigger] cells[r][c] > 0 implies cells[r][c]
        <= length && body[cells[r][c] - 1] == (r, c) by {}
    assert forall|j: int, k: int| 0 <= j && k == j + 1 && k < length implies adjacent(
        #[trigger] body[j],
        #[trigger] body[k],
    ) by {}
    assert(is_body(cells, length, body));
    assert(snake_ok(cells, length));
    assert(square(cells));
    assert(walls_ok(cells));
    assert(values_ok(cells));
    assert forall|r: int, c: int| in_grid(n, r, c) implies #[trigger] cells[r][c] != FOOD by {}
    assert(food_ok(cells));
}

/// Food on a free cell of a grid without food keeps the invariant.
pub proof fn lemma_food_keeps_wf(s: EngineState, r: int, c: int)
    requires
        wf(s),
        !has_food(s.cells),
        is_free(s.cells, r, c),
    ensures
        wf(with_food(s, r, c)),
        has_food(with_food(s, r, c).cells),
{
    let n = s.cells.len() as int;
    let after = with_food(s, r, c).cells;
    let body = choose|body: Seq<(int, int)>| is_body(s.cells, s.length, body);
    assert forall|k: int| 0 <= k < s.length implies interior(n, (#[trigger] body[k]).0, body[k].1)
        && after[body[k].0][body[k].1] == k + 1 by {
        assert(s.cells[body[k].0][body[k].1] == k + 1);
    }
    assert forall|i: int, j: int| in_grid(n, i, j) && #[trigger] after[i][j] > 0 implies after[i][j]
        <= s.length && body[after[i][j] - 1] == (i, j) by {
        assert(s.cells[i][j] > 0);
    }
    assert(is_body(after, s.length, body));
    assert(square(after));
    assert(walls_ok(after)) by {
        assert forall|i: int, j: int| in_grid(n, i, j) implies (#[trigger] after[i][j] == WALL
            <==> !interior(n, i, j)) by {
            assert(s.cells[i][j] == WALL <==> !interior(n, i, j));
        }
    }
    assert(values_ok(after)) by {
        assert forall|i: int, j: int| in_grid(n, i, j) implies #[trigger] after[i][j] >= FOOD by {
            assert(s.cells[i][j] >= FOOD);
        }
    }
    assert(food_ok(after)) by {
        assert forall|i: int, j: int, i2: int, j2: int|
            in_grid(n, i, j) && in_grid(n, i2, j2) && #[trigger] after[i][j] == FOOD
                && #[trigger] after[i2][j2] == FOOD implies i == i2 && j == j2 by {
            if (i, j) != (r, c) {
                assert(s.cells[i][j] == FOOD);
            }
            if (i2, j2) != (r, c) {
                assert(s.cells[i2][j2] == FOOD);
            }
        }
    }
    assert(in_grid(n, r, c) && after[r][c] == FOOD);
}

} // verus!
