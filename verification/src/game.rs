//! The game state and its rules: moving, eating, growing, levelling up,
//! steering and restarting.
use std::collections::VecDeque;
use vstd::prelude::*;

use crate::board::{
    all_in_grid, in_grid, is_snake, lemma_distinct_cells_fit_board, lemma_grow, lemma_shrink,
    lemma_remove_keeps_distinct_cells, lemma_step_adjacent, opposite, step, torus_adjacent, wrap, Direction, Point, GRID_SIZE,
};
use crate::random::{gen_range, thread_rng};

verus! {

/// After this many random draws have all landed on the snake, the last draw is
/// taken as the food cell anyway.
pub const FOOD_DRAW_LIMIT: u32 = 1000;

/// How many random draws are tried for each extra food item on a multi-food level.
pub const EXTRA_FOOD_TRIES: i32 = 50;

/// The kind of a level; a few levels change the rules.
#[derive(Clone, Copy, Debug, PartialEq, Eq, Structural)]
pub enum LevelType {
    /// Ordinary rules.
    Normal,
    /// The snake passes through the walls and comes out on the far side.
    GhostMode,
    /// Several food items are placed at once.
    MultiFood,
    /// The snake moves twice as fast.
    Speed,
}

/// A key that the game reacts to; every other key is `Other`.
#[derive(Clone, Copy, Debug, PartialEq, Eq, Structural)]
pub enum Key {
    Up,
    Down,
    Left,
    Right,
    W,
    A,
    S,
    D,
    R,
    Other,
}

/// The kind of level number `level`.
pub open spec fn level_type_of(level: nat) -> LevelType {
    if level == 5 {
        LevelType::GhostMode
    } else if level == 10 {
        LevelType::MultiFood
    } else if level == 15 {
        LevelType::Speed
    } else {
        LevelType::Normal
    }
}

/// The direction a key steers to, if it steers.
pub open spec fn key_direction(key: Key) -> Option<Direction> {
    match key {
        Key::Up | Key::W => Some(Direction::Up),
        Key::Down | Key::S => Some(Direction::Down),
        Key::Left | Key::A => Some(Direction::Left),
        Key::Right | Key::D => Some(Direction::Right),
        _ => None,
    }
}

/// The cell the snake starts on, in the middle of the board.
pub open spec fn start_cell() -> Point {
    Point { x: (GRID_SIZE / 2) as i32, y: (GRID_SIZE / 2) as i32 }
}

/// The state of a game as mathematical values.
pub struct GameView {
    /// The snake's cells, head first.
    pub snake: Seq<Point>,
    pub direction: Direction,
    /// The food item placed last by a refill.
    pub food: Point,
    pub score: nat,
    pub game_over: bool,
    pub level: nat,
    pub level_type: LevelType,
    /// The food items on the board.
    pub food_items: Seq<Point>,
}

/// A run of `spawn_food`'s draws that yields `p`: every draw lies on the
/// board, every draw but the last landed on the snake, and the last one, `p`,
/// is kept because it is off the snake or because it is draw number
/// `FOOD_DRAW_LIMIT + 1`.
pub open spec fn food_draws_yield(snake: Seq<Point>, draws: Seq<Point>, p: Point) -> bool {
    &&& 1 <= draws.len() <= FOOD_DRAW_LIMIT + 1
    &&& all_in_grid(draws)
    &&& draws.last() == p
    &&& forall|i: int| 0 <= i < draws.len() - 1 ==> snake.contains(#[trigger] draws[i])
    &&& (!snake.contains(p) || draws.len() == FOOD_DRAW_LIMIT + 1)
}

/// The cell is taken: the snake is on it or it holds food.
pub open spec fn cell_taken(snake: Seq<Point>, items: Seq<Point>, p: Point) -> bool {
    snake.contains(p) || items.contains(p)
}

/// A run of `try_spawn_food`'s draws that yields `r`: every draw lies on the
/// board; `Some(q)` when `q`, the last draw, is the first free one, within
/// `max_tries` draws; `None` when all `max_tries` draws (none if it is not
/// positive) were taken cells.
pub open spec fn free_cell_draws_yield(
    snake: Seq<Point>,
    items: Seq<Point>,
    max_tries: int,
    draws: Seq<Point>,
    r: Option<Point>,
) -> bool {
    &&& all_in_grid(draws)
    &&& match r {
        Some(q) => {
            &&& 1 <= draws.len() <= max_tries
            &&& draws.last() == q
            &&& !cell_taken(snake, items, q)
            &&& forall|i: int|
                0 <= i < draws.len() - 1 ==> cell_taken(snake, items, #[trigger] draws[i])
        },
        None => {
            &&& draws.len() == (if max_tries > 0 {
                max_tries
            } else {
                0
            })
            &&& forall|i: int| 0 <= i < draws.len() ==> cell_taken(snake, items, #[trigger] draws[i])
        },
    }
}

/// The items with the found cell, if any, added at the end.
pub open spec fn with_found(items: Seq<Point>, r: Option<Point>) -> Seq<Point> {
    match r {
        Some(q) => items.push(q),
        None => items,
    }
}

/// Rounds of extra-food draws: round `k` starts from the items `stages[k]`,
/// draws `rounds[k]` as `try_spawn_food` with `EXTRA_FOOD_TRIES` tries, finds
/// `results[k]`, and leaves `stages[k + 1]`, which holds the found cell.
pub open spec fn extra_food_rounds(
    snake: Seq<Point>,
    stages: Seq<Seq<Point>>,
    rounds: Seq<Seq<Point>>,
    results: Seq<Option<Point>>,
) -> bool {
    &&& stages.len() == rounds.len() + 1
    &&& results.len() == rounds.len()
    &&& forall|k: int|
        0 <= k < rounds.len() ==> {
            &&& free_cell_draws_yield(
                snake,
                stages[k],
                EXTRA_FOOD_TRIES as int,
                #[trigger] rounds[k],
                results[k],
            )
            &&& stages[k + 1] == with_found(stages[k], results[k])
        }
}

/// What a refill of the food leaves: `food` first, any extra items after it,
/// extras only on a multi-food level and never on the snake, no cell twice.
pub open spec fn food_refilled(
    level_type: LevelType,
    level: nat,
    snake: Seq<Point>,
    food: Point,
    items: Seq<Point>,
) -> bool {
    &&& in_grid(food)
    &&& items.len() >= 1
    &&& items[0] == food
    &&& items.no_duplicates()
    &&& all_in_grid(items)
    &&& forall|i: int| 1 <= i < items.len() ==> !snake.contains(#[trigger] items[i])
    &&& if level_type == LevelType::MultiFood {
        items.len() <= 1 + level / 5
    } else {
        items.len() == 1
    }
    &&& exists|draws: Seq<Point>| food_draws_yield(snake, draws, food)
    &&& level_type == LevelType::MultiFood ==> exists|
        stages: Seq<Seq<Point>>,
        rounds: Seq<Seq<Point>>,
        results: Seq<Option<Point>>,
    |
        {
            &&& stages[0] == seq![food]
            &&& stages.last() == items
            &&& rounds.len() == level / 5
            &&& #[trigger] extra_food_rounds(snake, stages, rounds, results)
        }
}

impl GameView {
    /// The snake's head.
    pub open spec fn head(self) -> Point {
        self.snake[0]
    }

    /// The snake passes through walls on this level.
    pub open spec fn is_ghost(self) -> bool {
        self.level_type == LevelType::GhostMode
    }

    /// The cell straight ahead of the head, possibly off the board.
    pub open spec fn next_cell(self) -> Point {
        step(self.head(), self.direction)
    }

    /// The next move runs into a wall.
    pub open spec fn hits_wall(self) -> bool {
        !self.is_ghost() && !in_grid(self.next_cell())
    }

    /// Where the head goes next: the cell ahead, brought back from the far
    /// side on a ghost level.
    pub open spec fn new_head(self) -> Point {
        if self.is_ghost() {
            wrap(self.next_cell())
        } else {
            self.next_cell()
        }
    }

    /// The next move runs into the snake itself (its tail included).
    pub open spec fn hits_itself(self) -> bool {
        self.snake.contains(self.new_head())
    }

    /// The next move lands on a food item.
    pub open spec fn eats(self) -> bool {
        self.food_items.contains(self.new_head())
    }

    /// The invariant of every game: a snake of distinct cells on the board,
    /// each a step from the next (across the joined edges), one cell longer
    /// than the score; food on the board, no cell twice; the level is one
    /// more than half the score, and its kind follows from its number.
    pub open spec fn wf(self) -> bool {
        &&& is_snake(self.snake)
        &&& self.snake.len() == self.score + 1
        &&& in_grid(self.food)
        &&& self.food_items.len() >= 1
        &&& all_in_grid(self.food_items)
        &&& self.food_items.no_duplicates()
        &&& self.level == 1 + self.score / 2
        &&& self.level_type == level_type_of(self.level)
    }

    /// A game as it starts: one cell in the middle heading right, one food
    /// item, nothing scored, level one.
    pub open spec fn is_fresh(self) -> bool {
        &&& self.snake == seq![start_cell()]
        &&& self.direction == Direction::Right
        &&& self.score == 0
        &&& !self.game_over
        &&& self.level == 1
        &&& self.level_type == LevelType::Normal
        &&& in_grid(self.food)
        &&& self.food_items == seq![self.food]
        &&& exists|draws: Seq<Point>| food_draws_yield(seq![start_cell()], draws, self.food)
    }

    /// What one tick does to the game.
    pub open spec fn updated(self, new: GameView) -> bool {
        if self.game_over {
            new == self
        } else if self.hits_wall() || self.hits_itself() {
            new == GameView { game_over: true, ..self }
        } else if !self.eats() {
            new == GameView { snake: seq![self.new_head()] + self.snake.drop_last(), ..self }
        } else {
            let score = self.score + 1;
            let levels_up = score % 2 == 0;
            &&& new.snake == seq![self.new_head()] + self.snake
            &&& new.direction == self.direction
            &&& new.score == score
            &&& !new.game_over
            &&& new.level == if levels_up { self.level + 1 } else { self.level }
            &&& new.level_type == if levels_up {
                level_type_of(self.level + 1)
            } else {
                self.level_type
            }
            &&& if self.food_items.len() > 1 {
                &&& new.food == self.food
                &&& exists|i: int|
                    0 <= i < self.food_items.len() && self.food_items[i] == self.new_head()
                        && new.food_items == self.food_items.remove(i)
            } else {
                food_refilled(self.level_type, self.level, new.snake, new.food, new.food_items)
            }
        }
    }

    /// What a key press does to the game, given the game that a restart
    /// would start.
    pub open spec fn key_pressed(self, key: Key, new: GameView) -> bool {
        if self.game_over {
            if key == Key::R {
                new.is_fresh()
            } else {
                new == self
            }
        } else {
            match key_direction(key) {
                None => new == self,
                Some(d) => new == GameView {
                    direction: if d != opposite(self.direction) {
                        d
                    } else {
                        self.direction
                    },
                    ..self
                },
            }
        }
    }
}

/// A game of snake.
pub struct Game {
    snake: VecDeque<Point>,
    direction: Direction,
    food: Point,
    score: u32,
    game_over: bool,
    level: u32,
    level_type: LevelType,
    food_items: Vec<Point>,
}

impl View for Game {
    type V = GameView;

    closed spec fn view(&self) -> GameView {
        GameView {
            snake: self.snake@,
            direction: self.direction,
            food: self.food,
            score: self.score as nat,
            game_over: self.game_over,
            level: self.level as nat,
            level_type: self.level_type,
            food_items: self.food_items@,
        }
    }
}

/// The snake occupies the cell.
fn snake_contains(snake: &VecDeque<Point>, p: Point) -> (r: bool)
    ensures
        r == snake@.contains(p),
{
    let mut i: usize = 0;
    while i < snake.len()
        invariant
            i <= snake@.len(),
            forall|j: int| 0 <= j < i ==> snake@[j] != p,
        decreases snake@.len() - i,
    {
        if snake[i] == p {
            return true;
        }
        i += 1;
    }
    false
}

/// The first position of `p` among `items`, if any.
fn position_of(items: &Vec<Point>, p: Point) -> (r: Option<usize>)
    ensures
        match r {
            Some(i) => i < items@.len() && items@[i as int] == p && forall|j: int|
                0 <= j < i ==> items@[j] != p,
            None => !items@.contains(p),
        },
{
    let mut i: usize = 0;
    while i < items.len()
        invariant
            i <= items@.len(),
            forall|j: int| 0 <= j < i ==> items@[j] != p,
        decreases items@.len() - i,
    {
        if items[i] == p {
            return Some(i);
        }
        i += 1;
    }
    None
}

/// The two cells are one step apart across the joined edges (`b` on the board).
fn cells_adjacent(a: Point, b: Point) -> (r: bool)
    requires
        in_grid(b),
    ensures
        r == torus_adjacent(a, b),
{
    let up = Point { x: b.x, y: (b.y - 1 + GRID_SIZE) % GRID_SIZE };
    let down = Point { x: b.x, y: (b.y + 1 + GRID_SIZE) % GRID_SIZE };
    let left = Point { x: (b.x - 1 + GRID_SIZE) % GRID_SIZE, y: b.y };
    let right = Point { x: (b.x + 1 + GRID_SIZE) % GRID_SIZE, y: b.y };
    proof {
        assert(up == wrap(step(b, Direction::Up)));
        assert(down == wrap(step(b, Direction::Down)));
        assert(left == wrap(step(b, Direction::Left)));
        assert(right == wrap(step(b, Direction::Right)));
    }
    a == up || a == down || a == left || a == right
}

/// The cell lies on the board.
fn on_board(p: Point) -> (r: bool)
    ensures
        r == in_grid(p),
{
    0 <= p.x && p.x < GRID_SIZE && 0 <= p.y && p.y < GRID_SIZE
}

/// The cells form a snake's body.
fn check_snake(s: &Vec<Point>) -> (r: bool)
    ensures
        r == is_snake(s@),
{
    if s.len() == 0 {
        return false;
    }
    let mut i: usize = 0;
    while i < s.len()
        invariant
            i <= s@.len(),
            forall|k: int| 0 <= k < i ==> in_grid(#[trigger] s@[k]),
            forall|k: int, l: int| 0 <= l < k < i ==> s@[k] != s@[l],
            forall|k: int| 0 < k < i ==> torus_adjacent(#[trigger] s@[k - 1], s@[k]),
        decreases s@.len() - i,
    {
        if !on_board(s[i]) {
            return false;
        }
        let mut j: usize = 0;
        while j < i
            invariant
                j <= i < s@.len(),
                forall|l: int| 0 <= l < j ==> s@[i as int] != s@[l],
            decreases i - j,
        {
            if s[j] == s[i] {
                return false;
            }
            j += 1;
        }
        if i > 0 && !cells_adjacent(s[i - 1], s[i]) {
            return false;
        }
        i += 1;
    }
    proof {
        assert forall|k: int, l: int| 0 <= k < s@.len() && 0 <= l < s@.len() && k != l implies s@[k]
            != s@[l] by {
            if l < k {
            } else {
                assert(s@[l] != s@[k]);
            }
        }
        assert forall|k: int| 0 <= k < s@.len() - 1 implies torus_adjacent(
            #[trigger] s@[k],
            s@[k + 1],
        ) by {
            assert(torus_adjacent(s@[(k + 1) - 1], s@[k + 1]));
        }
    }
    true
}

/// The cells lie on the board and none occurs twice.
fn check_food(items: &Vec<Point>) -> (r: bool)
    ensures
        r == (all_in_grid(items@) && items@.no_duplicates()),
{
    let mut i: usize = 0;
    while i < items.len()
        invariant
            i <= items@.len(),
            forall|k: int| 0 <= k < i ==> in_grid(#[trigger] items@[k]),
            forall|k: int, l: int| 0 <= l < k < i ==> items@[k] != items@[l],
        decreases items@.len() - i,
    {
        if !on_board(items[i]) {
            return false;
        }
        let mut j: usize = 0;
        while j < i
            invariant
                j <= i < items@.len(),
                forall|l: int| 0 <= l < j ==> items@[i as int] != items@[l],
            decreases i - j,
        {
            if items[j] == items[i] {
                return false;
            }
            j += 1;
        }
        i += 1;
    }
    proof {
        assert forall|k: int, l: int|
            0 <= k < items@.len() && 0 <= l < items@.len() && k != l implies items@[k]
            != items@[l] by {
            if l < k {
            } else {
                assert(items@[l] != items@[k]);
            }
        }
    }
    true
}

impl Game {
    /// The kind of level number `level`: levels 5, 10 and 15 are special.
    pub fn get_level_type(level: u32) -> (r: LevelType)
        ensures
            r == level_type_of(level as nat),
    {
        match level {
            5 => LevelType::GhostMode,
            10 => LevelType::MultiFood,
            15 => LevelType::Speed,
            _ => LevelType::Normal,
        }
    }

    /// What one random draw of a food cell decides, after `failed` earlier
    /// draws landed on the snake: a cell off the snake is taken; a cell on it
    /// is taken only when it is the draw after `FOOD_DRAW_LIMIT` failed ones;
    /// otherwise `None` asks for another draw.
    pub fn food_candidate(snake: &VecDeque<Point>, candidate: Point, failed: u32) -> (r: Option<
        Point,
    >)
        requires
            failed < u32::MAX,
        ensures
            r == (if !snake@.contains(candidate) || failed + 1 > FOOD_DRAW_LIMIT {
                Some(candidate)
            } else {
                None::<Point>
            }),
    {
        if !snake_contains(snake, candidate) {
            return Some(candidate);
        }
        let tries = failed + 1;
        if tries > FOOD_DRAW_LIMIT {
            return Some(candidate);
        }
        None
    }

    /// A random cell of the board for the next food item, drawn again while it
    /// lands on the snake, but at most `FOOD_DRAW_LIMIT + 1` times; the cell
    /// is always on the board, and it is what the rule of `food_candidate`
    /// keeps from the draws that were made (`food_draws_yield`). Which cells
    /// were drawn rests on chance and is not stated.
    pub fn spawn_food(snake: &VecDeque<Point>) -> (p: Point)
        ensures
            in_grid(p),
            exists|draws: Seq<Point>| food_draws_yield(snake@, draws, p),
    {
        let mut rng = thread_rng();
        let mut tries: u32 = 0;
        let ghost mut drawn: Seq<Point> = Seq::empty();
        loop
            invariant
                tries <= FOOD_DRAW_LIMIT,
                drawn.len() == tries,
                all_in_grid(drawn),
                forall|i: int| 0 <= i < drawn.len() ==> snake@.contains(#[trigger] drawn[i]),
            decreases FOOD_DRAW_LIMIT - tries,
        {
            let x = gen_range(&mut rng, 0, GRID_SIZE);
            let y = gen_range(&mut rng, 0, GRID_SIZE);
            let point = Point { x, y };
            let ghost before = drawn;
            proof {
                drawn = drawn.push(point);
                assert forall|i: int| 0 <= i < drawn.len() implies in_grid(#[trigger] drawn[i]) by {
                    if i < before.len() {
                        assert(drawn[i] == before[i]);
                    }
                }
            }
            if let Some(p) = Game::food_candidate(snake, point, tries) {
                proof {
                    assert forall|i: int| 0 <= i < drawn.len() - 1 implies snake@.contains(
                        #[trigger] drawn[i],
                    ) by {
                        assert(drawn[i] == before[i]);
                    }
                    assert(food_draws_yield(snake@, drawn, p));
                }
                return p;
            }
            proof {
                assert forall|i: int| 0 <= i < drawn.len() implies snake@.contains(
                    #[trigger] drawn[i],
                ) by {
                    if i < before.len() {
                        assert(drawn[i] == before[i]);
                    }
                }
            }
            tries += 1;
        }
    }

    /// What one random draw for an extra food item decides: a cell that is
    /// neither on the snake nor already holds food is taken, any other cell
    /// is refused.
    pub fn free_food_cell(&self, candidate: Point) -> (r: Option<Point>)
        ensures
            r == (if !self@.snake.contains(candidate) && !self@.food_items.contains(candidate) {
                Some(candidate)
            } else {
                None::<Point>
            }),
    {
        if !snake_contains(&self.snake, candidate) && position_of(&self.food_items, candidate).is_none() {
            proof {
                assert(self@.snake == self.snake@);
            }
            Some(candidate)
        } else {
            None
        }
    }

    /// Up to `max_tries` random cells, the first one that is neither on the
    /// snake nor already holds food; `None` when every draw missed
    /// (`free_cell_draws_yield`). Which cells were drawn, and so whether a
    /// free one is found, rests on chance and is not stated.
    pub fn try_spawn_food(&self, max_tries: i32) -> (r: Option<Point>)
        ensures
            match r {
                Some(p) => in_grid(p) && !self@.snake.contains(p) && !self@.food_items.contains(p),
                None => true,
            },
            max_tries <= 0 ==> r is None,
            exists|draws: Seq<Point>|
                free_cell_draws_yield(self@.snake, self@.food_items, max_tries as int, draws, r),
    {
        let mut rng = thread_rng();
        let mut i: i32 = 0;
        let ghost mut drawn: Seq<Point> = Seq::empty();
        while i < max_tries
            invariant
                0 <= i,
                i <= max_tries || i == 0,
                drawn.len() == i,
                all_in_grid(drawn),
                forall|j: int|
                    0 <= j < drawn.len() ==> cell_taken(self@.snake, self@.food_items, #[trigger] drawn[j]),
            decreases max_tries - i,
        {
            let x = gen_range(&mut rng, 0, GRID_SIZE);
            let y = gen_range(&mut rng, 0, GRID_SIZE);
            let point = Point { x, y };
            let ghost before = drawn;
            proof {
                drawn = drawn.push(point);
                assert forall|j: int| 0 <= j < drawn.len() implies in_grid(#[trigger] drawn[j]) by {
                    if j < before.len() {
                        assert(drawn[j] == before[j]);
                    }
                }
            }
            if let Some(p) = self.free_food_cell(point) {
                proof {
                    assert forall|j: int| 0 <= j < drawn.len() - 1 implies cell_taken(
                        self@.snake,
                        self@.food_items,
                        #[trigger] drawn[j],
                    ) by {
                        assert(drawn[j] == before[j]);
                    }
                    assert(free_cell_draws_yield(
                        self@.snake,
                        self@.food_items,
                        max_tries as int,
                        drawn,
                        Some(p),
                    ));
                }
                return Some(p);
            }
            proof {
                assert forall|j: int| 0 <= j < drawn.len() implies cell_taken(
                    self@.snake,
                    self@.food_items,
                    #[trigger] drawn[j],
                ) by {
                    if j < before.len() {
                        assert(drawn[j] == before[j]);
                    }
                }
            }
            i += 1;
        }
        proof {
            assert(free_cell_draws_yield(self@.snake, self@.food_items, max_tries as int, drawn, None));
        }
        None
    }

    /// Puts food back on the board once the last item has been eaten: one
    /// item drawn by `spawn_food`, and on a multi-food level up to
    /// `level / 5` extra items, each drawn with `EXTRA_FOOD_TRIES` tries.
    fn refill_food(&mut self)
        ensures
            final(self)@ == (GameView {
                food: final(self)@.food,
                food_items: final(self)@.food_items,
                ..old(self)@
            }),
            food_refilled(
                old(self)@.level_type,
                old(self)@.level,
                old(self)@.snake,
                final(self)@.food,
                final(self)@.food_items,
            ),
    {
        self.food = Game::spawn_food(&self.snake);
        self.food_items = vec![self.food];
        proof {
            assert(self.food_items@ =~= seq![self.food]);
        }
        if self.level_type == LevelType::MultiFood {
            let ghost mid = self@;
            let num_foods = 1 + (self.level / 5) as usize;
            let mut k: usize = 1;
            let ghost mut stages: Seq<Seq<Point>> = seq![mid.food_items];
            let ghost mut rounds: Seq<Seq<Point>> = Seq::empty();
            let ghost mut results: Seq<Option<Point>> = Seq::empty();
            proof {
                assert(extra_food_rounds(mid.snake, stages, rounds, results));
            }
            while k < num_foods
                invariant
                    1 <= k <= num_foods,
                    num_foods == 1 + self.level / 5,
                    self@ == (GameView { food_items: self@.food_items, ..mid }),
                    mid.food_items == seq![mid.food],
                    in_grid(mid.food),
                    self@.food_items.len() >= 1,
                    self@.food_items.len() <= k,
                    self@.food_items[0] == mid.food,
                    self@.food_items.no_duplicates(),
                    all_in_grid(self@.food_items),
                    forall|i: int|
                        1 <= i < self@.food_items.len() ==> !mid.snake.contains(
                            #[trigger] self@.food_items[i],
                        ),
                    stages.len() == k,
                    rounds.len() == k - 1,
                    stages[0] == seq![mid.food],
                    stages.last() == self@.food_items,
                    extra_food_rounds(mid.snake, stages, rounds, results),
                decreases num_foods - k,
            {
                let ghost before = self@.food_items;
                let found = self.try_spawn_food(EXTRA_FOOD_TRIES);
                let ghost round = choose|d: Seq<Point>|
                    free_cell_draws_yield(mid.snake, before, EXTRA_FOOD_TRIES as int, d, found);
                if let Some(new_food) = found {
                    self.food_items.push(new_food);
                    proof {
                        let after = self@.food_items;
                        assert(after == before.push(new_food));
                        assert forall|i: int, j: int|
                            0 <= i < after.len() && 0 <= j < after.len() && i != j implies after[i]
                            != after[j] by {
                            if i < before.len() && j < before.len() {
                                assert(after[i] == before[i] && after[j] == before[j]);
                            } else if i < before.len() {
                                assert(after[i] == before[i]);
                            } else {
                                assert(after[j] == before[j]);
                            }
                        }
                        assert forall|i: int| 0 <= i < after.len() implies in_grid(
                            #[trigger] after[i],
                        ) by {
                            if i < before.len() {
                                assert(after[i] == before[i]);
                            }
                        }
                        assert forall|i: int| 1 <= i < after.len() implies !mid.snake.contains(
                            #[trigger] after[i],
                        ) by {
                            if i < before.len() {
                                assert(after[i] == before[i]);
                            }
                        }
                    }
                }
                proof {
                    assert(self@.food_items == with_found(before, found));
                    let old_stages = stages;
                    let old_rounds = rounds;
                    let old_results = results;
                    stages = stages.push(self@.food_items);
                    rounds = rounds.push(round);
                    results = results.push(found);
                    assert forall|j: int| 0 <= j < rounds.len() implies {
                        &&& free_cell_draws_yield(
                            mid.snake,
                            stages[j],
                            EXTRA_FOOD_TRIES as int,
                            #[trigger] rounds[j],
                            results[j],
                        )
                        &&& stages[j + 1] == with_found(stages[j], results[j])
                    } by {
                        if j < old_rounds.len() {
                            assert(stages[j] == old_stages[j]);
                            assert(stages[j + 1] == old_stages[j + 1]);
                            assert(rounds[j] == old_rounds[j]);
                            assert(results[j] == old_results[j]);
                        } else {
                            assert(stages[j] == old_stages.last());
                        }
                    }
                    assert(extra_food_rounds(mid.snake, stages, rounds, results));
                }
                k += 1;
            }
            proof {
                assert(rounds.len() == self.level / 5);
            }
        }
    }

    /// One tick of the game: the head moves a cell in the current direction
    /// (through the walls on a ghost level); running into a wall or into the
    /// snake ends the game; landing on food grows the snake, scores a point,
    /// refills the food once none is left and raises the level every second
    /// point; otherwise the tail follows. A finished game is left as it is.
    #[verifier::rlimit(30)]
    pub fn update_game(&mut self)
        requires
            old(self)@.wf(),
        ensures
            final(self)@.wf(),
            old(self)@.updated(final(self)@),
    {
        if self.game_over {
            return;
        }
        let ghost old_v = self@;
        let head = self.snake[0];
        proof {
            assert(in_grid(old_v.snake[0]));
            lemma_step_adjacent(head, self.direction);
        }
        let new_head = match self.direction {
            Direction::Up => Point { x: head.x, y: head.y - 1 },
            Direction::Down => Point { x: head.x, y: head.y + 1 },
            Direction::Left => Point { x: head.x - 1, y: head.y },
            Direction::Right => Point { x: head.x + 1, y: head.y },
        };
        let is_ghost_mode = self.level_type == LevelType::GhostMode;
        if !is_ghost_mode && (new_head.x < 0 || new_head.x >= GRID_SIZE || new_head.y < 0
            || new_head.y >= GRID_SIZE) {
            self.game_over = true;
            return;
        }
        let mut wrapped_head = new_head;
        if is_ghost_mode {
            wrapped_head.x = (wrapped_head.x + GRID_SIZE) % GRID_SIZE;
            wrapped_head.y = (wrapped_head.y + GRID_SIZE) % GRID_SIZE;
        }
        proof {
            assert(wrapped_head == old_v.new_head());
        }
        if snake_contains(&self.snake, wrapped_head) {
            self.game_over = true;
            return;
        }
        self.snake.push_front(wrapped_head);
        proof {
            lemma_grow(old_v.snake, wrapped_head);
            lemma_distinct_cells_fit_board(self@.snake);
        }
        let mut ate_food = false;
        if let Some(idx) = position_of(&self.food_items, wrapped_head) {
            ate_food = true;
            let ghost items = self@.food_items;
            self.food_items.remove(idx);
            proof {
                lemma_remove_keeps_distinct_cells(items, idx as int);
            }
        }
        if ate_food {
            self.score += 1;
            if self.food_items.is_empty() {
                self.refill_food();
            }
            if self.score % 2 == 0 {
                self.level += 1;
                self.level_type = Game::get_level_type(self.level);
            }
        } else {
            let ghost grown = self@.snake;
            self.snake.pop_back();
            proof {
                lemma_shrink(grown);
                assert(self@.snake =~= seq![old_v.new_head()] + old_v.snake.drop_last());
            }
        }
    }

    /// A game in the given state, head first in `snake`, when the parts form
    /// a valid game; its level is one more than half the score. `None` when
    /// they do not.
    pub fn from_parts(
        snake: Vec<Point>,
        direction: Direction,
        food: Point,
        food_items: Vec<Point>,
        score: u32,
        game_over: bool,
    ) -> (r: Option<Game>)
        ensures
            ({
                let level = 1 + score / 2;
                let v = GameView {
                    snake: snake@,
                    direction,
                    food,
                    score: score as nat,
                    game_over,
                    level: level as nat,
                    level_type: level_type_of(level as nat),
                    food_items: food_items@,
                };
                &&& r is Some <==> v.wf()
                &&& r matches Some(g) ==> g@ == v
            }),
    {
        let level = 1 + score / 2;
        let level_type = Game::get_level_type(level);
        if !check_snake(&snake) || snake.len() as u64 != score as u64 + 1 || !on_board(food)
            || food_items.len() == 0 || !check_food(&food_items) {
            return None;
        }
        let mut deque = VecDeque::new();
        let mut i: usize = 0;
        while i < snake.len()
            invariant
                i <= snake@.len(),
                deque@ == snake@.subrange(0, i as int),
            decreases snake@.len() - i,
        {
            deque.push_back(snake[i]);
            proof {
                assert(snake@.subrange(0, i + 1) =~= snake@.subrange(0, i as int).push(snake@[i as int]));
            }
            i += 1;
        }
        proof {
            assert(deque@ =~= snake@);
        }
        Some(Game { snake: deque, direction, food, score, game_over, level, level_type, food_items })
    }

    /// A fresh game: a one-cell snake in the middle of the board heading
    /// right, one food item placed at random, level one.
    pub fn new() -> (g: Game)
        ensures
            g@.wf(),
            g@.is_fresh(),
    {
        let mut snake = VecDeque::new();
        snake.push_back(Point { x: GRID_SIZE / 2, y: GRID_SIZE / 2 });
        let food = Game::spawn_food(&snake);
        let level: u32 = 1;
        let level_type = Game::get_level_type(level);
        let food_items = vec![food];
        let g = Game {
            snake,
            direction: Direction::Right,
            food,
            score: 0,
            game_over: false,
            level,
            level_type,
            food_items,
        };
        proof {
            assert(g@.snake =~= seq![start_cell()]);
            assert(g@.food_items =~= seq![food]);
        }
        g
    }

    /// Reacts to a key: on a finished game `R` starts a new one and every
    /// other key is ignored; otherwise the arrow keys and W, A, S, D steer,
    /// except back into the direction the snake came from.
    pub fn key_down_event(&mut self, key: Key)
        requires
            old(self)@.wf(),
        ensures
            final(self)@.wf(),
            old(self)@.key_pressed(key, final(self)@),
    {
        if self.game_over {
            if key == Key::R {
                *self = Game::new();
            }
            return;
        }
        let new_direction = match key {
            Key::Up | Key::W => Direction::Up,
            Key::Down | Key::S => Direction::Down,
            Key::Left | Key::A => Direction::Left,
            Key::Right | Key::D => Direction::Right,
            _ => return,
        };
        if (self.direction == Direction::Up && new_direction != Direction::Down) || (self.direction
            == Direction::Down && new_direction != Direction::Up) || (self.direction
            == Direction::Left && new_direction != Direction::Right) || (self.direction
            == Direction::Right && new_direction != Direction::Left) {
            self.direction = new_direction;
        }
    }

    /// The snake's cells, head first.
    pub fn snake(&self) -> (r: &VecDeque<Point>)
        ensures
            r@ == self@.snake,
    {
        &self.snake
    }

    /// The food items on the board.
    pub fn food_items(&self) -> (r: &Vec<Point>)
        ensures
            r@ == self@.food_items,
    {
        &self.food_items
    }

    /// The food item placed last by a refill.
    pub fn food(&self) -> (r: Point)
        ensures
            r == self@.food,
    {
        self.food
    }

    /// The way the snake is heading.
    pub fn direction(&self) -> (r: Direction)
        ensures
            r == self@.direction,
    {
        self.direction
    }

    /// Food items eaten so far.
    pub fn score(&self) -> (r: u32)
        ensures
            r == self@.score,
    {
        self.score
    }

    /// The current level number.
    pub fn level(&self) -> (r: u32)
        ensures
            r == self@.level,
    {
        self.level
    }

    /// The kind of the current level.
    pub fn level_type(&self) -> (r: LevelType)
        ensures
            r == self@.level_type,
    {
        self.level_type
    }

    /// The game has ended.
    pub fn is_game_over(&self) -> (r: bool)
        ensures
            r == self@.game_over,
    {
        self.game_over
    }
}

} // verus!
