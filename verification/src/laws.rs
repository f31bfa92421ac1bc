//! What holds of every game: the laws of construction, of the heading, of
//! the tick and of the snake that the grid encodes.

use crate::cell::{adjacent, Direction, Tick, FOOD, MAX_SIDE, WALL};
use crate::model::{
    advanced, fed, food_ok, found, has_food, has_free, in_grid, initial_state, is_body, is_free,
    target_of, tick, wf, with_direction, with_food, EngineState,
};
use crate::proofs::{lemma_food_keeps_wf, lemma_head, lemma_initial_wf, lemma_tick_keeps_wf};
use vstd::prelude::*;

verus! {

/// The cells of `cells` that hold a part of the snake.
pub open spec fn snake_cells(cells: Seq<Seq<int>>) -> Set<(int, int)> {
    Set::new(|p: (int, int)| in_grid(cells.len() as int, p.0, p.1) && cells[p.0][p.1] > 0)
}

/// Whether a cell of `cells` holds the value `v`.
pub open spec fn holds_value(cells: Seq<Seq<int>>, v: int) -> bool {
    exists|r: int, c: int| in_grid(cells.len() as int, r, c) && #[trigger] cells[r][c] == v
}

/// A new engine, before and after its food is placed, holds a live game:
/// for every length from 1 and every side from `length + 2` to 65535.
pub proof fn law_construction(length: int, n: int, made: EngineState)
    requires
        1 <= length,
        length + 2 <= n <= MAX_SIDE,
        fed(initial_state(length, n), made),
    ensures
        wf(initial_state(length, n)),
        wf(made),
        made.length == length,
        made.score == 0,
        made.direction == Direction::Right,
        snake_cells(made.cells).finite(),
        snake_cells(made.cells).len() == length,
        food_where_room(made.cells),
{
    lemma_initial_wf(length, n);
    law_feeding(initial_state(length, n), made);
    law_snake_count(made);
    if has_free(initial_state(length, n).cells) {
        let (r, c) = choose|r: int, c: int|
            is_free(initial_state(length, n).cells, r, c) && #[trigger] made.cells[r][c] == FOOD;
        assert(in_grid(n, r, c) && made.cells[r][c] == FOOD);
    }
}

/// In a live game every value from 1 to the length is held by a cell, no two
/// cells hold the same positive value, no cell holds more than the length,
/// and two cells whose values differ by one share an edge.
pub proof fn law_snake_values(s: EngineState)
    requires
        wf(s),
    ensures
        forall|v: int| 1 <= v <= s.length ==> #[trigger] holds_value(s.cells, v),
        forall|r: int, c: int, r2: int, c2: int|
            in_grid(s.cells.len() as int, r, c) && in_grid(s.cells.len() as int, r2, c2)
                && #[trigger] s.cells[r][c] > 0 && s.cells[r][c] == #[trigger] s.cells[r2][c2]
                ==> r == r2 && c == c2,
        forall|r: int, c: int|
            in_grid(s.cells.len() as int, r, c) ==> #[trigger] s.cells[r][c] <= s.length,
        forall|r: int, c: int, r2: int, c2: int|
            in_grid(s.cells.len() as int, r, c) && in_grid(s.cells.len() as int, r2, c2)
                && #[trigger] s.cells[r][c] > 0 && #[trigger] s.cells[r2][c2] == s.cells[r][c] + 1
                ==> adjacent((r, c), (r2, c2)),
{
    let n = s.cells.len() as int;
    let body = choose|body: Seq<(int, int)>| is_body(s.cells, s.length, body);
    assert forall|v: int| 1 <= v <= s.length implies #[trigger] holds_value(s.cells, v) by {
        let p = body[v - 1];
        assert(in_grid(n, p.0, p.1) && s.cells[p.0][p.1] == v);
    }
    assert forall|r: int, c: int, r2: int, c2: int|
        in_grid(n, r, c) && in_grid(n, r2, c2) && #[trigger] s.cells[r][c] > 0 && s.cells[r][c]
            == #[trigger] s.cells[r2][c2] implies r == r2 && c == c2 by {
        assert(body[s.cells[r][c] - 1] == (r, c));
        assert(body[s.cells[r2][c2] - 1] == (r2, c2));
    }
    assert forall|r: int, c: int, r2: int, c2: int|
        in_grid(n, r, c) && in_grid(n, r2, c2) && #[trigger] s.cells[r][c] > 0
            && #[trigger] s.cells[r2][c2] == s.cells[r][c] + 1 implies adjacent(
        (r, c),
        (r2, c2),
    ) by {
        let j = s.cells[r][c] - 1;
        assert(body[j] == (r, c));
        assert(body[j + 1] == (r2, c2));
        assert(adjacent(body[j], body[j + 1]));
    }
}

/// In a live game the snake holds as many cells as it is long.
pub proof fn law_snake_count(s: EngineState)
    requires
        wf(s),
    ensures
        snake_cells(s.cells).finite(),
        snake_cells(s.cells).len() == s.length,
{
    let n = s.cells.len() as int;
    let body = choose|body: Seq<(int, int)>| is_body(s.cells, s.length, body);
    assert forall|i: int, j: int|
        0 <= i < body.len() && 0 <= j < body.len() && i != j implies body[i] != body[j] by {
        assert(s.cells[body[i].0][body[i].1] == i + 1);
        assert(s.cells[body[j].0][body[j].1] == j + 1);
    }
    body.unique_seq_to_set();
    assert(body.to_set() =~= snake_cells(s.cells)) by {
        let held = snake_cells(s.cells);
        assert forall|p: (int, int)| held.contains(p) implies body.to_set().contains(p) by {
            assert(body[s.cells[p.0][p.1] - 1] == p);
        }
        assert forall|p: (int, int)| body.to_set().contains(p) implies held.contains(p) by {
            let k = choose|k: int| 0 <= k < body.len() && body[k] == p;
            assert(s.cells[body[k].0][body[k].1] == k + 1);
        }
    }
}

/// A tick without a collision leaves a live game.
pub proof fn law_tick_keeps_game(s: EngineState, after: EngineState)
    requires
        wf(s),
        tick(s).1 != Tick::Collided,
        advanced(s, after),
    ensures
        wf(after),
{
    lemma_tick_keeps_wf(s);
    if tick(s).1 == Tick::Grew {
        law_feeding(tick(s).0, after);
    }
}

/// Whether `after` can follow `before` in a game: by a tick without a
/// collision, or by a new heading.
pub open spec fn follows(before: EngineState, after: EngineState) -> bool {
    ||| tick(before).1 != Tick::Collided && advanced(before, after)
    ||| exists|d: Direction| after == #[trigger] with_direction(before, d)
}

/// Whether each state of `game` follows the one before it.
pub open spec fn is_game(game: Seq<EngineState>) -> bool {
    forall|j: int, k: int|
        0 <= j && k == j + 1 && k < game.len() ==> follows(#[trigger] game[j], #[trigger] game[k])
}

/// After any run of ticks without a collision and of new headings, a live
/// game is still live: its grid encodes one snake in one piece.
pub proof fn law_game_stays_live(game: Seq<EngineState>, k: int)
    requires
        is_game(game),
        0 <= k < game.len(),
        wf(game[0]),
    ensures
        wf(game[k]),
    decreases k,
{
    if k > 0 {
        law_game_stays_live(game, k - 1);
        assert(follows(game[k - 1], game[k]));
        if tick(game[k - 1]).1 != Tick::Collided && advanced(game[k - 1], game[k]) {
            law_tick_keeps_game(game[k - 1], game[k]);
        }
    }
}

/// Whether the grid holds food wherever it has room for it.
pub open spec fn food_where_room(cells: Seq<Seq<int>>) -> bool {
    has_food(cells) || !has_free(cells)
}

/// A game that holds food wherever it has room for it still does after a
/// tick without a collision: the food stays until it is eaten, and is then
/// placed anew.
pub proof fn law_food_stays(s: EngineState, after: EngineState)
    requires
        wf(s),
        food_where_room(s.cells),
        tick(s).1 != Tick::Collided,
        advanced(s, after),
    ensures
        food_where_room(after.cells),
{
    let n = s.cells.len() as int;
    let body = choose|body: Seq<(int, int)>| is_body(s.cells, s.length, body);
    lemma_head(s.cells, s.length, body);
    let target = target_of(s);
    assert(in_grid(n, target.0, target.1));
    if tick(s).1 == Tick::Moved {
        assert(is_free(s.cells, target.0, target.1));
        let (r, c) = choose|r: int, c: int| in_grid(n, r, c) && #[trigger] s.cells[r][c] == FOOD;
        assert(in_grid(n, r, c) && after.cells[r][c] == FOOD);
    } else {
        lemma_tick_keeps_wf(s);
        if has_free(tick(s).0.cells) {
            law_feeding(tick(s).0, after);
            let (r, c) = choose|r: int, c: int|
                is_free(tick(s).0.cells, r, c) && #[trigger] after.cells[r][c] == FOOD;
            assert(in_grid(n, r, c) && after.cells[r][c] == FOOD);
        }
    }
}

/// Length and score never fall, and rise together: a tick leaves both as
/// they were or raises both by one.
pub proof fn law_counters(s: EngineState)
    ensures
        (tick(s).0.length == s.length && tick(s).0.score == s.score) || (tick(s).0.length
            == s.length + 1 && tick(s).0.score == s.score + 1),
        tick(s).0.direction == s.direction,
{
}

/// Food placed on a live game without food leaves a live game, whose food is
/// one cell that was free.
pub proof fn law_feeding(s: EngineState, after: EngineState)
    requires
        wf(s),
        !has_food(s.cells),
        fed(s, after),
    ensures
        wf(after),
        after.length == s.length,
        after.score == s.score,
        after.direction == s.direction,
        has_free(s.cells) ==> exists|r: int, c: int|
            is_free(s.cells, r, c) && #[trigger] after.cells[r][c] == FOOD,
        food_ok(after.cells),
{
    if has_free(s.cells) {
        let (r, c) = choose|r: int, c: int|
            is_free(s.cells, r, c) && after == #[trigger] with_food(s, r, c);
        lemma_food_keeps_wf(s, r, c);
        assert(is_free(s.cells, r, c) && after.cells[r][c] == FOOD);
    }
}

/// Only the last heading set before a tick counts.
pub proof fn law_last_direction(s: EngineState, first: Direction, last: Direction)
    ensures
        with_direction(with_direction(s, first), last) == with_direction(s, last),
        tick(with_direction(with_direction(s, first), last)) == tick(with_direction(s, last)),
{
}

/// A tick on which the head enters the food cell is a meal: it raises
/// length and score by one and leaves a live game. Where a cell is free after
/// the meal, the new food lies on one such cell, which is not the cell of the
/// meal, and is the only food.
pub proof fn law_growth(s: EngineState, after: EngineState)
    requires
        wf(s),
        found(s) == FOOD,
        advanced(s, after),
    ensures
        tick(s).1 == Tick::Grew,
        after.length == s.length + 1,
        after.score == s.score + 1,
        wf(after),
        food_ok(after.cells),
        has_free(tick(s).0.cells) ==> exists|r: int, c: int|
            is_free(tick(s).0.cells, r, c) && (r, c) != target_of(s)
                && #[trigger] after.cells[r][c] == FOOD,
{
    let body = choose|body: Seq<(int, int)>| is_body(s.cells, s.length, body);
    lemma_head(s.cells, s.length, body);
    lemma_tick_keeps_wf(s);
    law_feeding(tick(s).0, after);
    if has_free(tick(s).0.cells) {
        let target = target_of(s);
        let (r, c) = choose|r: int, c: int|
            is_free(tick(s).0.cells, r, c) && #[trigger] after.cells[r][c] == FOOD;
        assert(tick(s).0.cells[target.0][target.1] == 1);
        assert(is_free(tick(s).0.cells, r, c) && (r, c) != target && after.cells[r][c] == FOOD);
    }
}

/// A tick on which the cell in front of the head holds a wall or a part of
/// the snake is a collision, and leaves length, score and heading as they
/// were.
pub proof fn law_collision(s: EngineState)
    requires
        wf(s),
        found(s) == WALL || found(s) > 0,
    ensures
        tick(s).1 == Tick::Collided,
        tick(s).0.length == s.length,
        tick(s).0.score == s.score,
        tick(s).0.direction == s.direction,
{
}

} // verus!
