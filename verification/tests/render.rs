use avo_snek::game::LevelType;
use avo_snek::render::{board_color, level_banner, segment_color, shows_level_banner, Rgb};

#[test]
fn board_colors() {
    assert_eq!(board_color(LevelType::Normal), Rgb { r: 50, g: 10, b: 70 });
    assert_eq!(board_color(LevelType::Speed), Rgb { r: 200, g: 150, b: 220 });
}

#[test]
fn segment_colors() {
    assert_eq!(segment_color(LevelType::Normal, 0), Rgb { r: 0, g: 200, b: 0 });
    assert_eq!(segment_color(LevelType::Normal, 3), Rgb { r: 0, g: 255, b: 0 });
    assert_eq!(segment_color(LevelType::GhostMode, 0), Rgb { r: 100, g: 20, b: 150 });
    assert_eq!(segment_color(LevelType::MultiFood, 1), Rgb { r: 50, g: 10, b: 70 });
}

#[test]
fn banners() {
    assert_eq!(level_banner(LevelType::GhostMode), "GHOST MODE - Walk Through Walls!");
    assert_eq!(level_banner(LevelType::MultiFood), "MULTI-FOOD MODE!");
    assert_eq!(level_banner(LevelType::Speed), "EXTREME SPEED!");
    assert_eq!(level_banner(LevelType::Normal), "");
    assert!(shows_level_banner(LevelType::Speed, false));
    assert!(!shows_level_banner(LevelType::Speed, true));
    assert!(!shows_level_banner(LevelType::Normal, false));
}
