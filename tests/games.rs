use dot_games::snake::{INITIAL_POLL_INTERVAL, VICTORY};
use dot_games::{
    Direction, Dot, DotGame, DotScreen, InputSignal, JoyStickSignal, MenuAction, SelectionScreen,
    SnakeGame, UpdateResult,
};

fn dot(x: usize, y: usize) -> Dot {
    Dot { x, y }
}

fn lit_count(s: &DotScreen) -> u32 {
    s.columns.iter().map(|c| c.count_ones()).sum()
}

#[test]
fn start_layout() {
    let g = SnakeGame::new();
    assert_eq!(g.head_position(), dot(3, 4));
    assert_eq!(g.heading(), Direction::Right);
    assert_eq!(g.egg(), dot(1, 6));
    assert_eq!(g.get_score(), 0);
    assert_eq!(g.polling_interval_ms(), INITIAL_POLL_INTERVAL);
    assert!(!g.is_over());
    let s = g.screen();
    for d in [dot(1, 6), dot(3, 4), dot(2, 4), dot(1, 4)] {
        assert!(s.is_dot_on(&d));
    }
    assert_eq!(lit_count(&s), 4);
}

#[test]
fn reversal_is_refused() {
    let mut g = SnakeGame::new();
    g.set_direction(Direction::Left);
    assert_eq!(g.heading(), Direction::Right);
    g.set_direction(Direction::Up);
    assert_eq!(g.heading(), Direction::Up);
    g.set_direction(Direction::Down);
    assert_eq!(g.heading(), Direction::Up);
    g.set_direction(Direction::Right);
    assert_eq!(g.heading(), Direction::Right);
    g.set_direction(Direction::Right);
    assert_eq!(g.heading(), Direction::Right);
}

#[test]
fn steering_by_signal() {
    let mut g = SnakeGame::new();
    g.steer(None);
    assert_eq!(g.heading(), Direction::Right);
    g.steer(Some(InputSignal::JoyStick(JoyStickSignal { horiz: 0, vert: 40, button: false })));
    assert_eq!(g.heading(), Direction::Right);
    g.steer(Some(InputSignal::JoyStick(JoyStickSignal { horiz: -90, vert: 0, button: false })));
    assert_eq!(g.heading(), Direction::Right);
    g.steer(Some(InputSignal::JoyStick(JoyStickSignal { horiz: 3, vert: -77, button: true })));
    assert_eq!(g.heading(), Direction::Down);
}

#[test]
fn three_ticks_move_right() {
    let mut g = SnakeGame::new();
    for x in 4..7 {
        assert_eq!(g.update(12345), UpdateResult::Moved);
        assert_eq!(g.head_position(), dot(x, 4));
        assert_eq!(g.get_score(), 0);
    }
    let s = g.screen();
    assert_eq!(lit_count(&s), 4);
    for d in [dot(6, 4), dot(5, 4), dot(4, 4), dot(1, 6)] {
        assert!(s.is_dot_on(&d));
    }
    assert!(s.is_dot_off(&dot(3, 4)));
    assert_eq!(g.polling_interval_ms(), INITIAL_POLL_INTERVAL);
}

/// Steers the starting snake round so that the egg at (1, 6) lies straight
/// ahead of the head at (2, 6).
fn approach_egg(g: &mut SnakeGame) {
    for turn in [Direction::Up, Direction::Left, Direction::Up] {
        g.set_direction(turn);
        assert_eq!(g.update(0), UpdateResult::Moved);
    }
    assert_eq!(g.head_position(), dot(2, 6));
    g.set_direction(Direction::Left);
}

#[test]
fn eating_the_egg_grows_the_snake() {
    let mut g = SnakeGame::new();
    approach_egg(&mut g);
    assert_eq!(g.update(8), UpdateResult::EggEaten);
    assert_eq!(g.head_position(), dot(1, 6));
    assert_eq!(g.get_score(), 1);
    // Free dots in raster order: all of column 0, then column 1 without (1, 6).
    assert_eq!(g.egg(), dot(1, 0));
    assert_eq!(g.polling_interval_ms(), 490);
    let s = g.screen();
    assert_eq!(lit_count(&s), 5);
    for d in [dot(1, 6), dot(2, 6), dot(2, 5), dot(3, 5), dot(1, 0)] {
        assert!(s.is_dot_on(&d));
    }
}

#[test]
fn new_egg_lands_on_a_free_dot() {
    for random in [0u32, 7, 59, 60, 1000, u32::MAX] {
        let mut g = SnakeGame::new();
        approach_egg(&mut g);
        assert_eq!(g.update(random), UpdateResult::EggEaten);
        let egg = g.egg();
        for d in [dot(1, 6), dot(2, 6), dot(2, 5), dot(3, 5)] {
            assert_ne!(egg, d);
        }
        assert!(g.screen().is_dot_on(&egg));
    }
    let mut g = SnakeGame::new();
    approach_egg(&mut g);
    g.update(0);
    assert_eq!(g.egg(), dot(0, 0));
}

#[test]
fn running_into_the_tail_ends_the_round() {
    let mut g = SnakeGame::new();
    approach_egg(&mut g);
    // The free dot at place 6 is (0, 6), straight ahead.
    assert_eq!(g.update(6), UpdateResult::EggEaten);
    assert_eq!(g.egg(), dot(0, 6));
    assert_eq!(g.update(0), UpdateResult::EggEaten);
    assert_eq!(g.get_score(), 2);
    assert_eq!(g.egg(), dot(0, 0));
    g.set_direction(Direction::Down);
    assert_eq!(g.update(0), UpdateResult::Moved);
    g.set_direction(Direction::Right);
    assert_eq!(g.update(0), UpdateResult::Moved);
    assert_eq!(g.head_position(), dot(1, 5));
    let before = g.screen();
    g.set_direction(Direction::Up);
    assert_eq!(g.update(0), UpdateResult::Collision);
    assert!(g.is_over());
    assert_eq!(g.screen().columns, before.columns);
    assert_eq!(g.get_score(), 2);
    assert_eq!(g.score_tally(), 2);
}

#[test]
fn running_into_the_wall_ends_the_round() {
    let mut g = SnakeGame::new();
    for _ in 0..4 {
        assert_eq!(g.update(0), UpdateResult::Moved);
    }
    assert_eq!(g.head_position(), dot(7, 4));
    assert_eq!(g.update(0), UpdateResult::Collision);
    assert!(g.is_over());
    assert_eq!(g.head_position(), dot(7, 4));
    assert_eq!(g.score_tally(), 0);
}

#[test]
fn reset_restores_the_start() {
    let mut g = SnakeGame::new();
    approach_egg(&mut g);
    g.update(3);
    g.reset();
    let fresh = SnakeGame::new();
    assert_eq!(g.head_position(), fresh.head_position());
    assert_eq!(g.heading(), Direction::Right);
    assert_eq!(g.egg(), dot(1, 6));
    assert_eq!(g.get_score(), 0);
    assert_eq!(g.polling_interval_ms(), INITIAL_POLL_INTERVAL);
    assert_eq!(g.screen().columns, fresh.screen().columns);
    assert!(!g.is_over());
}

#[test]
fn blinking_egg_screen() {
    let g = SnakeGame::new();
    let s = g.screen_without_egg();
    assert!(s.is_dot_off(&dot(1, 6)));
    assert_eq!(lit_count(&s), 3);
}

#[test]
fn tally_frames() {
    assert_eq!(SnakeGame::tally_screen(0).columns, [0u8; 8]);
    assert_eq!(SnakeGame::tally_screen(3).columns, [0b1110_0000, 0, 0, 0, 0, 0, 0, 0]);
    assert_eq!(SnakeGame::tally_screen(10).columns, [0xff, 0b1100_0000, 0, 0, 0, 0, 0, 0]);
    assert_eq!(SnakeGame::tally_screen(64).columns, [0xff; 8]);
    assert_eq!(VICTORY, 61);
}

#[test]
fn title_screen_picture() {
    let g = SnakeGame::new();
    assert_eq!(
        g.title_screen().columns,
        [0, 0, 0b11011111, 0b10011001, 0b10011001, 0b11111011, 0, 0]
    );
}

#[test]
fn menu_moves_and_selects() {
    let mut menu = SelectionScreen::new();
    let title = menu.current_title_screen();
    assert_eq!(title.columns, SnakeGame::new().title_screen().columns);
    let right = JoyStickSignal { horiz: 100, vert: 0, button: false };
    let left = JoyStickSignal { horiz: -100, vert: 10, button: false };
    let still = JoyStickSignal { horiz: 10, vert: -10, button: false };
    let press = JoyStickSignal { horiz: -100, vert: 0, button: true };
    assert_eq!(menu.react(&right), MenuAction::Next);
    assert_eq!(menu.react(&left), MenuAction::Previous);
    assert_eq!(menu.react(&still), MenuAction::Stay);
    assert_eq!(menu.current_title_screen().columns, title.columns);
    assert_eq!(menu.react(&press), MenuAction::Select);
    let mut game = menu.select();
    assert_eq!(game.title_screen().columns, title.columns);
    game.reset();
    match game {
        DotGame::Snake(g) => assert_eq!(g.head_position(), dot(3, 4)),
    }
}
