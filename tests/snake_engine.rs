use minigames::snake::{Direction, SnakeGame, GRID, SCORE_STEP};

fn game_at(head: (i16, i16), body: Vec<(i16, i16)>, dir: Direction, fruit: (i16, i16)) -> SnakeGame {
    let score = SCORE_STEP * body.len() as u128;
    SnakeGame {
        head,
        body,
        dir,
        fruit,
        score,
        game_over: false,
        navigation_lock: false,
    }
}

#[test]
fn eating_fruit_grows_and_scores() {
    let mut g = game_at((5, 5), vec![(4, 5)], Direction::Right, (6, 5));
    let before = g.body.len();
    let ate = g.advance((10, 3));
    assert!(ate);
    assert_eq!(g.head, (6, 5));
    assert_eq!(g.body, vec![(5, 5), (4, 5)]);
    assert_eq!(g.body.len(), before + 1);
    assert_eq!(g.score, 2 * SCORE_STEP);
    assert_eq!(g.fruit, (10, 3));
    assert_ne!(g.fruit, (6, 5));
    assert!(!g.game_over);
}

#[test]
fn random_tick_eats_fruit_and_redraws_it_on_grid() {
    let mut g = game_at((5, 5), vec![], Direction::Right, (6, 5));
    let ate = g.tick();
    assert!(ate);
    assert_eq!(g.head, (6, 5));
    assert_eq!(g.body.len(), 1);
    assert_eq!(g.score, 100);
    assert!(g.fruit.0 >= 0 && g.fruit.0 < GRID && g.fruit.1 >= 0 && g.fruit.1 < GRID);
}

#[test]
fn plain_move_keeps_length() {
    let mut g = game_at((5, 5), vec![(4, 5), (3, 5)], Direction::Right, (0, 0));
    let ate = g.advance((1, 1));
    assert!(!ate);
    assert_eq!(g.head, (6, 5));
    assert_eq!(g.body, vec![(5, 5), (4, 5)]);
    assert_eq!(g.score, 2 * SCORE_STEP);
    assert_eq!(g.fruit, (0, 0));
}

#[test]
fn reverse_request_rejected() {
    let mut g = SnakeGame::with_fruit((9, 9));
    assert!(!g.set_direction(Direction::Left));
    assert_eq!(g.dir, Direction::Right);
    assert!(g.set_direction(Direction::Up));
    assert!(!g.set_direction(Direction::Down));
    assert_eq!(g.dir, Direction::Up);
    assert!(g.navigation_lock);
}

#[test]
fn one_turn_per_tick() {
    let mut g = SnakeGame::with_fruit((9, 9));
    assert!(g.set_direction(Direction::Down));
    assert!(!g.set_direction(Direction::Left));
    assert_eq!(g.dir, Direction::Down);
    g.advance((1, 1));
    assert!(!g.navigation_lock);
    assert!(g.set_direction(Direction::Left));
    assert_eq!(g.dir, Direction::Left);
}

#[test]
fn leaving_grid_ends_game() {
    let mut g = game_at((17, 5), vec![], Direction::Right, (0, 0));
    g.advance((1, 1));
    assert_eq!(g.head, (18, 5));
    assert!(g.game_over);
    let mut g = game_at((0, 0), vec![], Direction::Up, (5, 5));
    g.advance((1, 1));
    assert!(g.game_over);
}

#[test]
fn biting_body_ends_game() {
    let mut g = game_at((5, 5), vec![(5, 4), (6, 4), (6, 5), (6, 6)], Direction::Right, (0, 0));
    g.advance((1, 1));
    assert!(g.game_over);
}

#[test]
fn moving_into_vacated_tail_is_safe() {
    let mut g = game_at((5, 5), vec![(5, 4), (6, 4), (6, 5)], Direction::Right, (0, 0));
    g.advance((1, 1));
    assert_eq!(g.body, vec![(5, 5), (5, 4), (6, 4)]);
    assert!(!g.game_over);
}

#[test]
fn finished_game_ignores_ticks_and_turns() {
    let mut g = game_at((17, 5), vec![], Direction::Right, (0, 0));
    g.advance((1, 1));
    assert!(g.game_over);
    assert!(!g.tick());
    assert_eq!(g.head, (18, 5));
    assert!(!g.set_direction(Direction::Up));
}

#[test]
fn reset_restarts() {
    let mut g = game_at((17, 5), vec![(16, 5)], Direction::Right, (0, 0));
    g.advance((1, 1));
    g.reset();
    assert_eq!(g.head, (0, 0));
    assert!(g.body.is_empty());
    assert_eq!(g.dir, Direction::Right);
    assert_eq!(g.score, 0);
    assert!(!g.game_over);
    assert!(g.fruit.0 >= 0 && g.fruit.0 < GRID && g.fruit.1 >= 0 && g.fruit.1 < GRID);
}

#[test]
fn opposite_directions() {
    assert_eq!(Direction::Up.opposite(), Direction::Down);
    assert_eq!(Direction::Left.opposite(), Direction::Right);
}

#[test]
fn fruit_on_body_grows_then_ends_game() {
    let mut g = game_at((5, 5), vec![(5, 4), (6, 4), (6, 5)], Direction::Right, (6, 5));
    let ate = g.advance((0, 0));
    assert!(ate);
    assert_eq!(g.body.len(), 4);
    assert!(g.game_over);
}
