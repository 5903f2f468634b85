//! What the board looks like on a level: the colours and the level banner.
//! Drawing them is left to the caller.
use vstd::prelude::*;

use crate::game::LevelType;

verus! {

/// A colour as red, green and blue components.
#[derive(Clone, Copy, Debug, PartialEq, Eq, Structural)]
pub struct Rgb {
    pub r: u8,
    pub g: u8,
    pub b: u8,
}

/// The light purple of the special levels.
pub open spec fn special_background() -> Rgb {
    Rgb { r: 200, g: 150, b: 220 }
}

/// The dark purple of ordinary levels, also the body colour on special ones.
pub open spec fn dark_purple() -> Rgb {
    Rgb { r: 50, g: 10, b: 70 }
}

/// The colour of the window and of the board: light purple on the special
/// levels, dark purple on ordinary ones.
pub fn board_color(level_type: LevelType) -> (c: Rgb)
    ensures
        c == (if level_type != LevelType::Normal {
            special_background()
        } else {
            dark_purple()
        }),
{
    if level_type != LevelType::Normal {
        Rgb { r: 200, g: 150, b: 220 }
    } else {
        Rgb { r: 50, g: 10, b: 70 }
    }
}

/// The colour of the snake's segment at `index` (0 is the head): on special
/// levels a purple head on a dark purple body, on ordinary ones a darker
/// green head on a bright green body.
pub fn segment_color(level_type: LevelType, index: usize) -> (c: Rgb)
    ensures
        c == (if level_type != LevelType::Normal {
            if index == 0 {
                Rgb { r: 100, g: 20, b: 150 }
            } else {
                dark_purple()
            }
        } else {
            if index == 0 {
                Rgb { r: 0, g: 200, b: 0 }
            } else {
                Rgb { r: 0, g: 255, b: 0 }
            }
        }),
{
    if level_type != LevelType::Normal {
        if index == 0 {
            Rgb { r: 100, g: 20, b: 150 }
        } else {
            Rgb { r: 50, g: 10, b: 70 }
        }
    } else {
        if index == 0 {
            Rgb { r: 0, g: 200, b: 0 }
        } else {
            Rgb { r: 0, g: 255, b: 0 }
        }
    }
}

/// The banner that announces a special level; empty for an ordinary one.
pub fn level_banner(level_type: LevelType) -> (text: &'static str)
    ensures
        text@ == (match level_type {
            LevelType::GhostMode => "GHOST MODE - Walk Through Walls!"@,
            LevelType::MultiFood => "MULTI-FOOD MODE!"@,
            LevelType::Speed => "EXTREME SPEED!"@,
            LevelType::Normal => ""@,
        }),
{
    match level_type {
        LevelType::GhostMode => "GHOST MODE - Walk Through Walls!",
        LevelType::MultiFood => "MULTI-FOOD MODE!",
        LevelType::Speed => "EXTREME SPEED!",
        LevelType::Normal => "",
    }
}

/// The level banner is shown while a game on a special level runs.
pub fn shows_level_banner(level_type: LevelType, game_over: bool) -> (r: bool)
    ensures
        r == (level_type != LevelType::Normal && !game_over),
{
    level_type != LevelType::Normal && !game_over
}

} // verus!
