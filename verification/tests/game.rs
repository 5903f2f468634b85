use avo_snek::board::{Direction, Point, GRID_SIZE};
use avo_snek::game::{Game, Key, LevelType, FOOD_DRAW_LIMIT};
use std::collections::VecDeque;

fn p(x: i32, y: i32) -> Point {
    Point { x, y }
}

fn deque(cells: &[Point]) -> VecDeque<Point> {
    cells.iter().copied().collect()
}

fn cells(g: &Game) -> Vec<Point> {
    g.snake().iter().copied().collect()
}

fn on_board(q: Point) -> bool {
    0 <= q.x && q.x < GRID_SIZE && 0 <= q.y && q.y < GRID_SIZE
}

fn game(snake: &[Point], dir: Direction, food: Point, items: &[Point], score: u32) -> Game {
    Game::from_parts(snake.to_vec(), dir, food, items.to_vec(), score, false).expect("valid state")
}

#[test]
fn level_types_by_number() {
    assert_eq!(Game::get_level_type(1), LevelType::Normal);
    assert_eq!(Game::get_level_type(4), LevelType::Normal);
    assert_eq!(Game::get_level_type(5), LevelType::GhostMode);
    assert_eq!(Game::get_level_type(10), LevelType::MultiFood);
    assert_eq!(Game::get_level_type(15), LevelType::Speed);
    assert_eq!(Game::get_level_type(16), LevelType::Normal);
}

#[test]
fn food_candidate_decisions() {
    let snake = deque(&[p(3, 3), p(4, 3)]);
    assert_eq!(Game::food_candidate(&snake, p(0, 0), 0), Some(p(0, 0)));
    assert_eq!(Game::food_candidate(&snake, p(3, 3), 0), None);
    assert_eq!(Game::food_candidate(&snake, p(4, 3), FOOD_DRAW_LIMIT - 1), None);
    assert_eq!(Game::food_candidate(&snake, p(4, 3), FOOD_DRAW_LIMIT), Some(p(4, 3)));
}

#[test]
fn spawned_food_is_on_the_board() {
    let snake = deque(&[p(10, 10)]);
    for _ in 0..500 {
        assert!(on_board(Game::spawn_food(&snake)));
    }
}

#[test]
fn spawned_food_varies() {
    let snake = deque(&[p(10, 10)]);
    let first = Game::spawn_food(&snake);
    let mut other = false;
    for _ in 0..200 {
        if Game::spawn_food(&snake) != first {
            other = true;
        }
    }
    assert!(other);
}

#[test]
fn new_game_is_fresh() {
    let g = Game::new();
    assert_eq!(cells(&g), vec![p(10, 10)]);
    assert_eq!(g.direction(), Direction::Right);
    assert_eq!(g.score(), 0);
    assert_eq!(g.level(), 1);
    assert_eq!(g.level_type(), LevelType::Normal);
    assert!(!g.is_game_over());
    assert_eq!(g.food_items().clone(), vec![g.food()]);
    assert!(on_board(g.food()));
}

#[test]
fn try_spawn_food_avoids_snake_and_food() {
    let g = game(&[p(1, 1), p(2, 1)], Direction::Left, p(5, 5), &[p(5, 5)], 1);
    assert_eq!(g.try_spawn_food(0), None);
    assert_eq!(g.try_spawn_food(-3), None);
    for _ in 0..200 {
        if let Some(q) = g.try_spawn_food(50) {
            assert!(on_board(q));
            assert!(q != p(1, 1) && q != p(2, 1) && q != p(5, 5));
        }
    }
}

#[test]
fn from_parts_accepts_only_valid_states() {
    assert!(Game::from_parts(vec![p(1, 1), p(2, 1)], Direction::Left, p(5, 5), vec![p(5, 5)], 1, false).is_some());
    // empty snake
    assert!(Game::from_parts(vec![], Direction::Left, p(5, 5), vec![p(5, 5)], 0, false).is_none());
    // length does not match the score
    assert!(Game::from_parts(vec![p(1, 1), p(2, 1)], Direction::Left, p(5, 5), vec![p(5, 5)], 0, false).is_none());
    // cells not neighbours
    assert!(Game::from_parts(vec![p(1, 1), p(3, 1)], Direction::Left, p(5, 5), vec![p(5, 5)], 1, false).is_none());
    // a cell twice
    assert!(Game::from_parts(vec![p(1, 1), p(2, 1), p(1, 1)], Direction::Left, p(5, 5), vec![p(5, 5)], 2, false).is_none());
    // off the board
    assert!(Game::from_parts(vec![p(20, 1)], Direction::Left, p(5, 5), vec![p(5, 5)], 0, false).is_none());
    // no food, food off the board, food twice
    assert!(Game::from_parts(vec![p(1, 1)], Direction::Left, p(5, 5), vec![], 0, false).is_none());
    assert!(Game::from_parts(vec![p(1, 1)], Direction::Left, p(-1, 5), vec![p(5, 5)], 0, false).is_none());
    assert!(Game::from_parts(vec![p(1, 1)], Direction::Left, p(5, 5), vec![p(5, 5), p(5, 5)], 0, false).is_none());
    // neighbours across the joined edges
    assert!(Game::from_parts(vec![p(0, 1), p(19, 1)], Direction::Left, p(5, 5), vec![p(5, 5)], 1, false).is_some());
}

#[test]
fn from_parts_derives_level() {
    let snake: Vec<Point> = (0..9).map(|i| p(i, 0)).collect();
    let g = game(&snake, Direction::Left, p(5, 5), &[p(5, 5)], 8);
    assert_eq!(g.level(), 5);
    assert_eq!(g.level_type(), LevelType::GhostMode);
}

#[test]
fn tick_moves_the_snake() {
    let mut g = game(&[p(5, 5), p(4, 5), p(3, 5)], Direction::Right, p(0, 0), &[p(0, 0)], 2);
    g.update_game();
    assert_eq!(cells(&g), vec![p(6, 5), p(5, 5), p(4, 5)]);
    assert_eq!(g.score(), 2);
    assert_eq!(g.food_items().clone(), vec![p(0, 0)]);
    assert!(!g.is_game_over());
}

#[test]
fn eating_one_of_several_items() {
    let mut g = game(&[p(5, 5)], Direction::Up, p(9, 9), &[p(9, 9), p(5, 4), p(1, 1)], 0);
    g.update_game();
    assert_eq!(cells(&g), vec![p(5, 4), p(5, 5)]);
    assert_eq!(g.score(), 1);
    assert_eq!(g.level(), 1);
    assert_eq!(g.food(), p(9, 9));
    assert_eq!(g.food_items().clone(), vec![p(9, 9), p(1, 1)]);
}

#[test]
fn eating_the_last_item_refills_and_levels_up() {
    let mut g = game(&[p(5, 5), p(5, 6)], Direction::Up, p(5, 4), &[p(5, 4)], 1);
    g.update_game();
    assert_eq!(cells(&g), vec![p(5, 4), p(5, 5), p(5, 6)]);
    assert_eq!(g.score(), 2);
    assert_eq!(g.level(), 2);
    assert_eq!(g.level_type(), LevelType::Normal);
    assert_eq!(g.food_items().clone(), vec![g.food()]);
    assert!(on_board(g.food()));
}

#[test]
fn reaching_level_five_turns_on_ghost_mode() {
    let snake: Vec<Point> = (0..8).map(|i| p(10 + i, 3)).collect();
    let mut g = game(&snake, Direction::Left, p(9, 3), &[p(9, 3)], 7);
    assert_eq!(g.level(), 4);
    g.update_game();
    assert_eq!(g.score(), 8);
    assert_eq!(g.level(), 5);
    assert_eq!(g.level_type(), LevelType::GhostMode);
}

#[test]
fn ghost_mode_wraps_through_the_wall() {
    let snake: Vec<Point> = (0..9).map(|i| p(i, 5)).collect();
    let mut g = game(&snake, Direction::Left, p(10, 10), &[p(10, 10)], 8);
    g.update_game();
    assert!(!g.is_game_over());
    assert_eq!(cells(&g)[0], p(19, 5));
    assert_eq!(cells(&g).len(), 9);
    let mut h = game(&[p(3, 0), p(3, 1), p(3, 2), p(3, 3), p(3, 4), p(3, 5), p(3, 6), p(3, 7), p(3, 8)],
        Direction::Up, p(10, 10), &[p(10, 10)], 8);
    h.update_game();
    assert_eq!(cells(&h)[0], p(3, 19));
}

#[test]
fn wall_ends_the_game_on_ordinary_levels() {
    let mut g = game(&[p(0, 5), p(1, 5)], Direction::Left, p(9, 9), &[p(9, 9)], 1);
    g.update_game();
    assert!(g.is_game_over());
    assert_eq!(cells(&g), vec![p(0, 5), p(1, 5)]);
    g.update_game();
    assert!(g.is_game_over());
    assert_eq!(cells(&g), vec![p(0, 5), p(1, 5)]);
}

#[test]
fn running_into_itself_ends_the_game() {
    let mut g = game(&[p(5, 5), p(6, 5), p(6, 6), p(5, 6), p(4, 6)], Direction::Down, p(9, 9), &[p(9, 9)], 4);
    g.update_game();
    assert!(g.is_game_over());
    assert_eq!(g.score(), 4);
}

#[test]
fn running_into_the_tail_ends_the_game() {
    let mut g = game(&[p(5, 5), p(6, 5), p(6, 6), p(5, 6)], Direction::Down, p(9, 9), &[p(9, 9)], 3);
    g.update_game();
    assert!(g.is_game_over());
}

#[test]
fn multi_food_level_refills_up_to_three_items() {
    let snake: Vec<Point> = (0..19).map(|i| p(i, 5)).collect();
    let mut head_first = snake.clone();
    head_first.reverse();
    // head at (18, 5) heading right onto the food at (19, 5); score 18 is level 10
    let g0 = game(&head_first, Direction::Right, p(19, 5), &[p(19, 5)], 18);
    assert_eq!(g0.level_type(), LevelType::MultiFood);
    for _ in 0..50 {
        let mut g = game(&head_first, Direction::Right, p(19, 5), &[p(19, 5)], 18);
        g.update_game();
        assert_eq!(g.score(), 19);
        assert_eq!(g.level(), 10);
        let items = g.food_items().clone();
        assert!(!items.is_empty() && items.len() <= 3);
        assert_eq!(items[0], g.food());
        let body = cells(&g);
        for (i, q) in items.iter().enumerate() {
            assert!(on_board(*q));
            if i > 0 {
                assert!(!body.contains(q));
                assert!(!items[..i].contains(q));
            }
        }
    }
}

#[test]
fn speed_level_at_fifteen() {
    let snake: Vec<Point> = (0..28).map(|i| if i < 20 { p(19 - i, 0) } else { p(0, i - 19) }).collect();
    let mut g = game(&snake, Direction::Down, p(19, 19), &[p(19, 19), p(19, 1)], 27);
    // head (19, 0) heading down onto (19, 1)
    g.update_game();
    assert_eq!(g.score(), 28);
    assert_eq!(g.level(), 15);
    assert_eq!(g.level_type(), LevelType::Speed);
}

#[test]
fn steering_and_no_reversal() {
    let mut g = game(&[p(5, 5), p(4, 5)], Direction::Right, p(9, 9), &[p(9, 9)], 1);
    g.key_down_event(Key::Left);
    assert_eq!(g.direction(), Direction::Right);
    g.key_down_event(Key::W);
    assert_eq!(g.direction(), Direction::Up);
    g.key_down_event(Key::Down);
    assert_eq!(g.direction(), Direction::Up);
    g.key_down_event(Key::A);
    assert_eq!(g.direction(), Direction::Left);
    g.key_down_event(Key::S);
    assert_eq!(g.direction(), Direction::Down);
    g.key_down_event(Key::Right);
    assert_eq!(g.direction(), Direction::Right);
    g.key_down_event(Key::Other);
    assert_eq!(g.direction(), Direction::Right);
    g.key_down_event(Key::R);
    assert_eq!(g.direction(), Direction::Right);
    assert_eq!(cells(&g), vec![p(5, 5), p(4, 5)]);
}

#[test]
fn restart_after_game_over() {
    let mut g = game(&[p(0, 5), p(1, 5)], Direction::Left, p(9, 9), &[p(9, 9)], 1);
    g.update_game();
    assert!(g.is_game_over());
    g.key_down_event(Key::Up);
    assert!(g.is_game_over());
    assert_eq!(g.direction(), Direction::Left);
    g.key_down_event(Key::R);
    assert!(!g.is_game_over());
    assert_eq!(cells(&g), vec![p(10, 10)]);
    assert_eq!(g.score(), 0);
    assert_eq!(g.level(), 1);
    assert_eq!(g.direction(), Direction::Right);
}

#[test]
fn fresh_game_runs_into_the_right_wall() {
    let mut g = Game::new();
    for k in 1..=9 {
        g.update_game();
        assert!(!g.is_game_over());
        assert_eq!(cells(&g)[0], p(10 + k, 10));
        assert_eq!(g.snake().len() as u32, g.score() + 1);
    }
    g.update_game();
    assert!(g.is_game_over());
    assert_eq!(cells(&g)[0], p(19, 10));
}

#[test]
fn free_food_cell_decisions() {
    let g = game(&[p(1, 1), p(2, 1)], Direction::Left, p(5, 5), &[p(5, 5), p(7, 7)], 1);
    assert_eq!(g.free_food_cell(p(0, 0)), Some(p(0, 0)));
    assert_eq!(g.free_food_cell(p(2, 1)), None);
    assert_eq!(g.free_food_cell(p(7, 7)), None);
    assert_eq!(g.free_food_cell(p(5, 5)), None);
}

#[test]
fn try_spawn_food_finds_a_free_cell() {
    let g = game(&[p(1, 1), p(2, 1)], Direction::Left, p(5, 5), &[p(5, 5)], 1);
    // two cells of four hundred are taken: fifty draws all missing is out of reach
    let q = g.try_spawn_food(50).expect("a free cell");
    assert!(on_board(q));
    assert!(q != p(1, 1) && q != p(2, 1) && q != p(5, 5));
}

#[test]
fn food_candidate_beyond_the_limit() {
    let snake = deque(&[p(3, 3)]);
    assert_eq!(Game::food_candidate(&snake, p(3, 3), FOOD_DRAW_LIMIT + 5), Some(p(3, 3)));
}
