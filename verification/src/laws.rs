//! Properties that hold across the game's operations.
use vstd::prelude::*;

use crate::board::{Point, lemma_distinct_cells_fit_board, lemma_remove_keeps_distinct_cells, opposite, step, torus_adjacent, GRID_SIZE};
use crate::game::{
    cell_taken, extra_food_rounds, food_draws_yield, free_cell_draws_yield, start_cell, with_found,
    GameView, Key, EXTRA_FOOD_TRIES, FOOD_DRAW_LIMIT,
};

verus! {

/// A finished game stays as it is: a tick changes nothing.
pub proof fn law_finished_game_stays(old: GameView, new: GameView)
    requires
        old.game_over,
        old.updated(new),
    ensures
        new == old,
{
}

/// On a finished game every key but `R` is ignored.
pub proof fn law_finished_game_ignores_keys(old: GameView, key: Key, new: GameView)
    requires
        old.game_over,
        key != Key::R,
        old.key_pressed(key, new),
    ensures
        new == old,
{
}

/// A tick never lowers the score or the level, and scores at most one point.
pub proof fn law_score_rises_by_at_most_one(old: GameView, new: GameView)
    requires
        old.updated(new),
    ensures
        old.score <= new.score <= old.score + 1,
        old.level <= new.level <= old.level + 1,
{
}

/// The level goes up on every second point, and only then.
pub proof fn law_level_up_every_second_point(old: GameView, new: GameView)
    requires
        old.updated(new),
    ensures
        new.level == old.level + (if new.score != old.score && new.score % 2 == 0 {
            1int
        } else {
            0int
        }),
{
}

/// The snake grows by one cell on a tick that scores, and keeps its length on
/// any other tick.
pub proof fn law_growth_matches_score(old: GameView, new: GameView)
    requires
        old.wf(),
        old.updated(new),
    ensures
        new.snake.len() - old.snake.len() == new.score - old.score,
{
}

/// The snake never outgrows the board, so the score stays below the number
/// of cells and the level stays within half of it.
pub proof fn law_snake_fits_board(g: GameView)
    requires
        g.wf(),
    ensures
        g.snake.len() <= GRID_SIZE * GRID_SIZE,
        g.score < GRID_SIZE * GRID_SIZE,
        g.level <= 1 + GRID_SIZE * GRID_SIZE / 2,
{
    lemma_distinct_cells_fit_board(g.snake);
}

/// Steering never turns the snake straight back the way it came.
pub proof fn law_no_reversal(old: GameView, key: Key, new: GameView)
    requires
        !old.game_over,
        old.key_pressed(key, new),
    ensures
        new.direction != opposite(old.direction),
{
}

/// A tick that keeps the game going moves the head one cell: to the
/// neighbouring cell ahead on an ordinary level, across the joined edges on a
/// ghost level; the direction is kept.
pub proof fn law_head_moves_one_cell(old: GameView, new: GameView)
    requires
        old.wf(),
        !old.game_over,
        old.updated(new),
        !new.game_over,
    ensures
        torus_adjacent(new.head(), old.head()),
        !old.is_ghost() ==> new.head() == step(old.head(), old.direction),
        new.direction == old.direction,
{
    crate::board::lemma_step_adjacent(old.head(), old.direction);
}

/// A game ends only by running into a wall or into the snake itself; on a
/// ghost level only the snake can end it.
pub proof fn law_game_ends_only_by_collision(old: GameView, new: GameView)
    requires
        !old.game_over,
        old.updated(new),
        new.game_over,
    ensures
        old.hits_wall() || old.hits_itself(),
        old.is_ghost() ==> old.hits_itself(),
{
}

/// No food item lies on the snake: a tick keeps it so, unless the food cell
/// that a refill draws lands on the snake (which only happens after every
/// draw has landed there).
pub proof fn law_food_stays_off_snake(old: GameView, new: GameView)
    requires
        old.wf(),
        old.updated(new),
        forall|i: int| 0 <= i < old.food_items.len() ==> !old.snake.contains(#[trigger] old.food_items[i]),
        !old.game_over && !old.hits_wall() && !old.hits_itself() && old.eats()
            && old.food_items.len() == 1 ==> !new.snake.contains(new.food),
    ensures
        forall|i: int| 0 <= i < new.food_items.len() ==> !new.snake.contains(#[trigger] new.food_items[i]),
{
    if old.game_over || old.hits_wall() || old.hits_itself() {
    } else if !old.eats() {
        let h = old.new_head();
        assert forall|i: int| 0 <= i < new.food_items.len() implies !new.snake.contains(
            #[trigger] new.food_items[i],
        ) by {
            let q = new.food_items[i];
            assert(q == old.food_items[i]);
            assert(q != h);
            if new.snake.contains(q) {
                let k = choose|k: int| 0 <= k < new.snake.len() && new.snake[k] == q;
                assert(k > 0);
                assert(new.snake[k] == old.snake[k - 1]);
                assert(old.snake.contains(q));
            }
        }
    } else if old.food_items.len() > 1 {
        let h = old.new_head();
        let j = choose|j: int|
            0 <= j < old.food_items.len() && old.food_items[j] == h && new.food_items
                == old.food_items.remove(j);
        lemma_remove_keeps_distinct_cells(old.food_items, j);
        assert forall|i: int| 0 <= i < new.food_items.len() implies !new.snake.contains(
            #[trigger] new.food_items[i],
        ) by {
            let ii = if i < j { i } else { i + 1 };
            let q = new.food_items[i];
            assert(q == old.food_items[ii]);
            assert(ii != j);
            assert(q != h);
            assert(!old.snake.contains(q));
            if new.snake.contains(q) {
                let k = choose|k: int| 0 <= k < new.snake.len() && new.snake[k] == q;
                assert(k > 0);
                assert(new.snake[k] == old.snake[k - 1]);
            }
        }
    } else {
        assert forall|i: int| 0 <= i < new.food_items.len() implies !new.snake.contains(
            #[trigger] new.food_items[i],
        ) by {
            if i == 0 {
                assert(new.food_items[0] == new.food);
            }
        }
    }
}

/// The food cell that `spawn_food` keeps is its first draw off the snake: no
/// earlier draw was off the snake, and a cell on the snake is kept only when
/// all `FOOD_DRAW_LIMIT + 1` draws landed on the snake.
pub proof fn law_spawned_food_is_first_free_draw(snake: Seq<Point>, draws: Seq<Point>, p: Point)
    requires
        food_draws_yield(snake, draws, p),
    ensures
        forall|i: int|
            0 <= i < draws.len() && !snake.contains(#[trigger] draws[i]) ==> i == draws.len() - 1
                && draws[i] == p,
        snake.contains(p) ==> draws.len() == FOOD_DRAW_LIMIT + 1 && forall|i: int|
            0 <= i < draws.len() ==> snake.contains(#[trigger] draws[i]),
{
}

/// The cell that `try_spawn_food` returns is its first free draw, within
/// `max_tries` draws; it returns nothing only after `max_tries` draws (none if
/// that is not positive) that all hit the snake or a food item.
pub proof fn law_extra_food_is_first_free_draw(
    snake: Seq<Point>,
    items: Seq<Point>,
    max_tries: int,
    draws: Seq<Point>,
    r: Option<Point>,
)
    requires
        free_cell_draws_yield(snake, items, max_tries, draws, r),
    ensures
        r matches Some(q) ==> draws.len() <= max_tries && !snake.contains(q) && !items.contains(q)
            && forall|i: int|
            0 <= i < draws.len() && !snake.contains(#[trigger] draws[i]) && !items.contains(
                draws[i],
            ) ==> i == draws.len() - 1 && draws[i] == q,
        r is None ==> draws.len() == (if max_tries > 0 {
            max_tries
        } else {
            0
        }) && forall|i: int|
            0 <= i < draws.len() ==> snake.contains(#[trigger] draws[i]) || items.contains(
                draws[i],
            ),
{
}

/// The food of a fresh game lies on the snake only when every one of the
/// `FOOD_DRAW_LIMIT + 1` draws that placed it hit the snake's only cell.
pub proof fn law_fresh_food_off_snake(g: GameView)
    requires
        g.is_fresh(),
    ensures
        g.snake.contains(g.food) ==> exists|draws: Seq<Point>|
            draws.len() == FOOD_DRAW_LIMIT + 1 && forall|i: int|
                0 <= i < draws.len() ==> #[trigger] draws[i] == start_cell(),
{
    let draws = choose|draws: Seq<Point>| food_draws_yield(seq![start_cell()], draws, g.food);
    if g.snake.contains(g.food) {
        assert(seq![start_cell()].contains(g.food));
        assert forall|i: int| 0 <= i < draws.len() implies #[trigger] draws[i] == start_cell() by {
            if i < draws.len() - 1 {
                assert(seq![start_cell()].contains(draws[i]));
            }
        }
    }
}

/// Restarting a finished game with `R` gives a fresh game whose food lies on
/// the snake only when every one of the `FOOD_DRAW_LIMIT + 1` draws hit the
/// snake's only cell.
pub proof fn law_restart_food_off_snake(old: GameView, new: GameView)
    requires
        old.game_over,
        old.key_pressed(Key::R, new),
    ensures
        new.is_fresh(),
        new.snake.contains(new.food) ==> exists|draws: Seq<Point>|
            draws.len() == FOOD_DRAW_LIMIT + 1 && forall|i: int|
                0 <= i < draws.len() ==> #[trigger] draws[i] == start_cell(),
{
    law_fresh_food_off_snake(new);
}

/// When the last food item is eaten, the new food lies on the grown snake
/// (its new head included) only when every one of the `FOOD_DRAW_LIMIT + 1`
/// draws that placed it hit the snake.
pub proof fn law_refilled_food_off_snake(old: GameView, new: GameView)
    requires
        old.wf(),
        old.updated(new),
        !old.game_over,
        !old.hits_wall(),
        !old.hits_itself(),
        old.eats(),
        old.food_items.len() == 1,
    ensures
        new.snake.contains(new.food) ==> exists|draws: Seq<Point>|
            draws.len() == FOOD_DRAW_LIMIT + 1 && forall|i: int|
                0 <= i < draws.len() ==> new.snake.contains(#[trigger] draws[i]),
        new.food == new.head() ==> new.snake.contains(new.food),
{
    let draws = choose|draws: Seq<Point>| food_draws_yield(new.snake, draws, new.food);
    if new.food == new.head() {
        assert(new.snake[0] == new.head());
    }
}

/// How many rounds found a cell.
pub open spec fn found_count(results: Seq<Option<Point>>) -> nat
    decreases results.len(),
{
    if results.len() == 0 {
        0
    } else {
        found_count(results.drop_last()) + if results.last() is Some {
            1nat
        } else {
            0nat
        }
    }
}

/// Each round's items begin every later round's items, and grow by one per
/// round that found a cell.
proof fn lemma_rounds_accumulate(
    snake: Seq<Point>,
    stages: Seq<Seq<Point>>,
    rounds: Seq<Seq<Point>>,
    results: Seq<Option<Point>>,
    k: int,
)
    requires
        extra_food_rounds(snake, stages, rounds, results),
        0 <= k <= rounds.len(),
    ensures
        stages[k].len() == stages[0].len() + found_count(results.take(k)),
        stages[k].len() <= stages.last().len(),
        forall|i: int| 0 <= i < stages[k].len() ==> #[trigger] stages[k][i] == stages.last()[i],
    decreases rounds.len() - k,
{
    if k < rounds.len() {
        lemma_rounds_accumulate(snake, stages, rounds, results, k + 1);
        assert(free_cell_draws_yield(
            snake,
            stages[k],
            EXTRA_FOOD_TRIES as int,
            rounds[k],
            results[k],
        ));
        assert(stages[k + 1] == with_found(stages[k], results[k]));
        assert(results.take(k + 1).drop_last() =~= results.take(k));
        assert forall|i: int| 0 <= i < stages[k].len() implies #[trigger] stages[k][i]
            == stages.last()[i] by {
            assert(stages[k + 1][i] == stages[k][i]);
            assert(stages[k + 1][i] == stages.last()[i]);
        }
    } else {
        lemma_found_count_prefix(stages, rounds, results, k, snake);
    }
}

/// The count over the first `k` rounds, by induction from the start.
proof fn lemma_found_count_prefix(
    stages: Seq<Seq<Point>>,
    rounds: Seq<Seq<Point>>,
    results: Seq<Option<Point>>,
    k: int,
    snake: Seq<Point>,
)
    requires
        extra_food_rounds(snake, stages, rounds, results),
        0 <= k <= rounds.len(),
    ensures
        stages[k].len() == stages[0].len() + found_count(results.take(k)),
    decreases k,
{
    if k > 0 {
        lemma_found_count_prefix(stages, rounds, results, k - 1, snake);
        assert(free_cell_draws_yield(
            snake,
            stages[k - 1],
            EXTRA_FOOD_TRIES as int,
            rounds[k - 1],
            results[k - 1],
        ));
        assert(results.take(k).drop_last() =~= results.take(k - 1));
    } else {
        assert(results.take(0).len() == 0);
    }
}

/// On a multi-food level, a refill makes `level / 5` rounds of extra draws
/// and keeps every cell a round found: the items are the new food and one
/// cell per successful round; a round that found nothing drew
/// `EXTRA_FOOD_TRIES` cells, all on the snake or holding food.
pub proof fn law_multi_food_refill(old: GameView, new: GameView)
    requires
        old.wf(),
        old.updated(new),
        !old.game_over,
        !old.hits_wall(),
        !old.hits_itself(),
        old.eats(),
        old.food_items.len() == 1,
        old.level_type == crate::game::LevelType::MultiFood,
    ensures
        exists|rounds: Seq<Seq<Point>>, results: Seq<Option<Point>>|
            #![trigger rounds.len(), found_count(results)]
            {
                &&& rounds.len() == old.level / 5
                &&& results.len() == rounds.len()
                &&& new.food_items.len() == 1 + found_count(results)
                &&& forall|k: int|
                    0 <= k < results.len() && results[k] is Some ==> new.food_items.contains(
                        #[trigger] results[k]->0,
                    )
                &&& forall|k: int|
                    0 <= k < results.len() && #[trigger] results[k] is None ==> rounds[k].len()
                        == EXTRA_FOOD_TRIES && forall|i: int|
                        0 <= i < rounds[k].len() ==> cell_taken(
                            new.snake,
                            new.food_items,
                            #[trigger] rounds[k][i],
                        )
            },
{
    let (stages, rounds, results) = choose|
        stages: Seq<Seq<Point>>,
        rounds: Seq<Seq<Point>>,
        results: Seq<Option<Point>>,
    |
        {
            &&& stages[0] == seq![new.food]
            &&& stages.last() == new.food_items
            &&& rounds.len() == old.level / 5
            &&& #[trigger] extra_food_rounds(new.snake, stages, rounds, results)
        };
    lemma_rounds_accumulate(new.snake, stages, rounds, results, rounds.len() as int);
    assert(results.take(results.len() as int) =~= results);
    assert forall|k: int| 0 <= k < results.len() && results[k] is Some implies new.food_items.contains(
        #[trigger] results[k]->0,
    ) by {
        lemma_rounds_accumulate(new.snake, stages, rounds, results, k + 1);
        assert(free_cell_draws_yield(
            new.snake,
            stages[k],
            EXTRA_FOOD_TRIES as int,
            rounds[k],
            results[k],
        ));
        let n = stages[k].len() as int;
        assert(stages[k + 1][n] == results[k]->0);
        assert(new.food_items[n] == results[k]->0);
    }
    assert forall|k: int| 0 <= k < results.len() && #[trigger] results[k] is None implies rounds[k].len()
        == EXTRA_FOOD_TRIES && forall|i: int|
        0 <= i < rounds[k].len() ==> cell_taken(new.snake, new.food_items, #[trigger] rounds[k][i]) by {
        lemma_rounds_accumulate(new.snake, stages, rounds, results, k);
        assert(free_cell_draws_yield(
            new.snake,
            stages[k],
            EXTRA_FOOD_TRIES as int,
            rounds[k],
            results[k],
        ));
        assert forall|i: int| 0 <= i < rounds[k].len() implies cell_taken(
            new.snake,
            new.food_items,
            #[trigger] rounds[k][i],
        ) by {
            let q = rounds[k][i];
            assert(cell_taken(new.snake, stages[k], q));
            if stages[k].contains(q) {
                let j = choose|j: int| 0 <= j < stages[k].len() && stages[k][j] == q;
                assert(new.food_items[j] == q);
            }
        }
    }
}

} // verus!
