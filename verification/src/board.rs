//! Cells of the square board, directions, and how a head moves.
use vstd::prelude::*;

verus! {

/// Number of cells along each side of the square board.
pub const GRID_SIZE: i32 = 20;

/// A cell of the board; `x` grows to the right, `y` grows downwards.
#[derive(Clone, Copy, Debug, PartialEq, Eq, Structural)]
pub struct Point {
    pub x: i32,
    pub y: i32,
}

/// The way the snake is heading.
#[derive(Clone, Copy, Debug, PartialEq, Eq, Structural)]
pub enum Direction {
    Up,
    Down,
    Left,
    Right,
}

/// The cell lies on the board.
pub open spec fn in_grid(p: Point) -> bool {
    0 <= p.x < GRID_SIZE && 0 <= p.y < GRID_SIZE
}

/// The direction that points the other way.
pub open spec fn opposite(d: Direction) -> Direction {
    match d {
        Direction::Up => Direction::Down,
        Direction::Down => Direction::Up,
        Direction::Left => Direction::Right,
        Direction::Right => Direction::Left,
    }
}

/// The cell one step from `p` in direction `d`, which may lie off the board.
pub open spec fn step(p: Point, d: Direction) -> Point {
    match d {
        Direction::Up => Point { x: p.x, y: (p.y - 1) as i32 },
        Direction::Down => Point { x: p.x, y: (p.y + 1) as i32 },
        Direction::Left => Point { x: (p.x - 1) as i32, y: p.y },
        Direction::Right => Point { x: (p.x + 1) as i32, y: p.y },
    }
}

/// A cell one step off the board, brought back onto it from the far side.
pub open spec fn wrap(p: Point) -> Point {
    Point { x: ((p.x + GRID_SIZE) % (GRID_SIZE as int)) as i32, y: ((p.y + GRID_SIZE) % (GRID_SIZE as int)) as i32 }
}

/// `a` is one step from `b` on the board whose edges are joined to the far side.
pub open spec fn torus_adjacent(a: Point, b: Point) -> bool {
    ||| a == wrap(step(b, Direction::Up))
    ||| a == wrap(step(b, Direction::Down))
    ||| a == wrap(step(b, Direction::Left))
    ||| a == wrap(step(b, Direction::Right))
}

/// Every cell of `s` lies on the board.
pub open spec fn all_in_grid(s: Seq<Point>) -> bool {
    forall|i: int| 0 <= i < s.len() ==> in_grid(#[trigger] s[i])
}

/// A cell on the board is left where it is by `wrap`; a cell one step off
/// the board is brought onto it.
pub proof fn lemma_wrap(p: Point)
    requires
        -1 <= p.x <= GRID_SIZE,
        -1 <= p.y <= GRID_SIZE,
    ensures
        in_grid(wrap(p)),
        in_grid(p) ==> wrap(p) == p,
{
}

/// A sequence of distinct cells of the board is at most as long as the board
/// has cells.
pub proof fn lemma_distinct_cells_fit_board(s: Seq<Point>)
    requires
        s.no_duplicates(),
        all_in_grid(s),
    ensures
        s.len() <= GRID_SIZE * GRID_SIZE,
{
    let f = |i: int| Point { x: (i % GRID_SIZE as int) as i32, y: (i / GRID_SIZE as int) as i32 };
    let range = vstd::set_lib::set_int_range(0, GRID_SIZE * GRID_SIZE);
    vstd::set_lib::lemma_int_range(0, GRID_SIZE * GRID_SIZE);
    vstd::set_lib::lemma_map_size_bound(range, range.map(f), f);
    assert(s.to_set().subset_of(range.map(f))) by {
        assert forall|p: Point| s.to_set().contains(p) implies range.map(f).contains(p) by {
            let k = choose|k: int| 0 <= k < s.len() && s[k] == p;
            assert(in_grid(s[k]));
            let i = p.y * GRID_SIZE + p.x;
            assert(range.contains(i));
            assert(f(i) == p);
        }
    }
    vstd::set_lib::lemma_len_subset(s.to_set(), range.map(f));
    s.unique_seq_to_set();
}

/// A snake's body: at least one cell, all on the board, no cell twice, each
/// cell one step from the next across the joined edges.
pub open spec fn is_snake(s: Seq<Point>) -> bool {
    &&& s.len() >= 1
    &&& all_in_grid(s)
    &&& s.no_duplicates()
    &&& forall|i: int| 0 <= i < s.len() - 1 ==> torus_adjacent(#[trigger] s[i], s[i + 1])
}

/// The cell one step from a board cell, brought back onto the board, is a
/// neighbour of it; so is the cell itself when it is on the board.
pub proof fn lemma_step_adjacent(p: Point, d: Direction)
    requires
        in_grid(p),
    ensures
        in_grid(wrap(step(p, d))),
        torus_adjacent(wrap(step(p, d)), p),
        in_grid(step(p, d)) ==> torus_adjacent(step(p, d), p) && wrap(step(p, d)) == step(p, d),
{
    lemma_wrap(step(p, d));
}

/// A new head on a free neighbouring cell of the board keeps a snake a snake.
pub proof fn lemma_grow(s: Seq<Point>, h: Point)
    requires
        is_snake(s),
        in_grid(h),
        !s.contains(h),
        torus_adjacent(h, s[0]),
    ensures
        is_snake(seq![h] + s),
{
    let t = seq![h] + s;
    assert forall|i: int| 0 <= i < t.len() implies in_grid(#[trigger] t[i]) by {
        if i > 0 {
            assert(t[i] == s[i - 1]);
        }
    }
    assert forall|i: int, j: int| 0 <= i < t.len() && 0 <= j < t.len() && i != j implies t[i]
        != t[j] by {
        if i > 0 && j > 0 {
            assert(t[i] == s[i - 1] && t[j] == s[j - 1]);
        } else if i == 0 {
            assert(t[j] == s[j - 1]);
        } else {
            assert(t[i] == s[i - 1]);
        }
    }
    assert forall|i: int| 0 <= i < t.len() - 1 implies torus_adjacent(#[trigger] t[i], t[i + 1]) by {
        if i > 0 {
            assert(t[i] == s[i - 1] && t[i + 1] == s[i]);
        }
    }
}

/// Losing its last cell keeps a snake of two or more cells a snake.
pub proof fn lemma_shrink(s: Seq<Point>)
    requires
        is_snake(s),
        s.len() >= 2,
    ensures
        is_snake(s.drop_last()),
{
    let t = s.drop_last();
    assert forall|i: int| 0 <= i < t.len() implies in_grid(#[trigger] t[i]) by {
        assert(t[i] == s[i]);
    }
    assert forall|i: int, j: int| 0 <= i < t.len() && 0 <= j < t.len() && i != j implies t[i]
        != t[j] by {
        assert(t[i] == s[i] && t[j] == s[j]);
    }
    assert forall|i: int| 0 <= i < t.len() - 1 implies torus_adjacent(#[trigger] t[i], t[i + 1]) by {
        assert(t[i] == s[i] && t[i + 1] == s[i + 1]);
    }
}

/// Taking one cell out of a list of distinct board cells leaves a list of
/// distinct board cells.
pub proof fn lemma_remove_keeps_distinct_cells(items: Seq<Point>, idx: int)
    requires
        all_in_grid(items),
        items.no_duplicates(),
        0 <= idx < items.len(),
    ensures
        all_in_grid(items.remove(idx)),
        items.remove(idx).no_duplicates(),
        forall|i: int|
            0 <= i < items.remove(idx).len() ==> #[trigger] items.remove(idx)[i] == items[if i
                < idx {
                i
            } else {
                i + 1
            }],
{
    let rest = items.remove(idx);
    assert forall|i: int| 0 <= i < rest.len() implies #[trigger] rest[i] == items[if i < idx {
        i
    } else {
        i + 1
    }] by {}
    assert forall|i: int| 0 <= i < rest.len() implies in_grid(#[trigger] rest[i]) by {
        if i < idx {
            assert(rest[i] == items[i]);
        } else {
            assert(rest[i] == items[i + 1]);
        }
    }
    assert forall|i: int, j: int| 0 <= i < rest.len() && 0 <= j < rest.len() && i != j implies rest[i]
        != rest[j] by {
        let ii = if i < idx { i } else { i + 1 };
        let jj = if j < idx { j } else { j + 1 };
        assert(rest[i] == items[ii] && rest[j] == items[jj]);
    }
}

} // verus!
