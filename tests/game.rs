use invaders::game::{Game, GameState, HEIGHT, WIDTH};
use invaders::input::InputHandler;

fn idle() -> InputHandler {
    InputHandler::new()
}

fn with(left: bool, right: bool, shoot: bool) -> InputHandler {
    let mut input = InputHandler::new();
    input.left = left;
    input.right = right;
    input.shoot = shoot;
    input
}

fn empty_game() -> Game {
    let mut game = Game::new(false);
    game.invaders = Vec::new();
    game
}

#[test]
fn fresh_game_layout() {
    let game = Game::new(false);
    assert!(game.invaders.contains(&(6, 1)));
    assert!(!game.invaders.contains(&(5, 1)));
    assert!(!game.invaders.contains(&(7, 1)));
    assert!(game.invaders.contains(&(34, 3)));
    assert!(!game.invaders.contains(&(36, 3)));
    assert!(!game.invaders.contains(&(6, 4)));
    assert_eq!(game.invaders.len(), 45);
    assert_eq!(game.invaders[0], (6, 1));
    assert_eq!(game.invaders[15], (6, 2));
    assert_eq!((game.player_x, game.player_y), (20, 18));
    assert_eq!(game.bullet, None);
    assert_eq!(game.invader_direction, 1);
    assert_eq!(game.state, GameState::Playing);
    assert_eq!(game.score, 0);
    assert!(!game.iconic_mode);
    assert!(Game::new(true).iconic_mode);
}

#[test]
fn fire_spawns_above_player() {
    // An invader right above the spawn cell is struck in the same tick: the
    // projectile appeared at (20, 17) and rose to row 16.
    let mut game = empty_game();
    game.invaders = vec![(20, 16)];
    game.step(&with(false, false, true), false);
    assert!(game.invaders.is_empty());
    assert_eq!(game.bullet, None);
    assert_eq!(game.score, 10);
}

#[test]
fn fire_then_rise() {
    let mut game = empty_game();
    game.step(&with(false, false, true), false);
    assert_eq!(game.bullet, Some((20, 16)));
    game.step(&idle(), false);
    assert_eq!(game.bullet, Some((20, 15)));
}

#[test]
fn fire_ignored_while_in_flight() {
    let mut game = empty_game();
    game.bullet = Some((5, 10));
    game.step(&with(false, false, true), false);
    assert_eq!(game.bullet, Some((5, 9)));
}

#[test]
fn projectile_hits_invader() {
    let mut game = Game::new(false);
    game.bullet = Some((6, 2));
    let before = game.invaders.len();
    game.step(&idle(), false);
    assert!(!game.invaders.contains(&(6, 1)));
    assert_eq!(game.invaders.len(), before - 1);
    assert_eq!(game.score, 10);
    assert_eq!(game.bullet, None);
}

#[test]
fn projectile_expires_at_top() {
    let mut game = empty_game();
    game.invaders = vec![(30, 5)];
    game.bullet = Some((20, 1));
    game.step(&idle(), false);
    assert_eq!(game.bullet, Some((20, 0)));
    game.step(&idle(), false);
    assert_eq!(game.bullet, None);
    assert_eq!(game.score, 0);
    assert_eq!(game.invaders, vec![(30, 5)]);
}

#[test]
fn first_of_several_hits_removed() {
    let mut game = empty_game();
    game.invaders = vec![(5, 1), (6, 1), (7, 1)];
    game.bullet = Some((6, 2));
    game.step(&idle(), false);
    assert_eq!(game.invaders, vec![(6, 1), (7, 1)]);
    assert_eq!(game.score, 10);
}

#[test]
fn hit_box_is_three_cells_wide_and_one_row_high() {
    let mut game = empty_game();
    game.invaders = vec![(8, 1), (6, 2)];
    game.bullet = Some((6, 2));
    game.step(&idle(), false);
    assert_eq!(game.invaders, vec![(8, 1), (6, 2)]);
    assert_eq!(game.bullet, Some((6, 1)));
}

#[test]
fn last_invader_wins_on_cadence() {
    let mut game = empty_game();
    game.invaders = vec![(6, 1)];
    game.bullet = Some((6, 2));
    game.step(&idle(), false);
    assert!(game.invaders.is_empty());
    assert_eq!(game.state, GameState::Playing);
    game.step(&idle(), true);
    assert_eq!(game.state, GameState::Won);
}

#[test]
fn invader_on_player_row_loses() {
    let mut game = empty_game();
    game.invaders = vec![(38, 17), (10, 5)];
    game.step(&idle(), true);
    assert_eq!(game.invaders, vec![(38, 18), (10, 6)]);
    assert_eq!(game.state, GameState::GameOver);
}

#[test]
fn formation_turns_at_right_edge() {
    let mut game = empty_game();
    game.invaders = vec![(10, 3), (38, 3)];
    game.step(&idle(), true);
    assert_eq!(game.invaders, vec![(10, 4), (38, 4)]);
    assert_eq!(game.invader_direction, -1);
    game.step(&idle(), true);
    assert_eq!(game.invaders, vec![(9, 4), (37, 4)]);
    assert_eq!(game.invader_direction, -1);
}

#[test]
fn formation_turns_at_left_edge() {
    let mut game = empty_game();
    game.invaders = vec![(1, 2), (20, 2)];
    game.invader_direction = -1;
    game.step(&idle(), true);
    assert_eq!(game.invaders, vec![(1, 3), (20, 3)]);
    assert_eq!(game.invader_direction, 1);
}

#[test]
fn formation_shifts_only_on_cadence() {
    let mut game = Game::new(false);
    let start = game.invaders.clone();
    game.step(&idle(), false);
    assert_eq!(game.invaders, start);
    game.step(&idle(), true);
    let shifted: Vec<(u16, u16)> = start.iter().map(|&(x, y)| (x + 1, y)).collect();
    assert_eq!(game.invaders, shifted);
    assert_eq!(game.state, GameState::Playing);
}

#[test]
fn player_clamped_at_sides() {
    let mut game = empty_game();
    game.invaders = vec![(20, 2)];
    game.player_x = 1;
    game.step(&with(true, false, false), false);
    assert_eq!(game.player_x, 1);
    game.step(&with(false, true, false), false);
    assert_eq!(game.player_x, 2);
    game.player_x = WIDTH - 2;
    game.step(&with(false, true, false), false);
    assert_eq!(game.player_x, 38);
    game.step(&with(true, true, false), false);
    assert_eq!(game.player_x, 38);
    for _ in 0..50 {
        game.step(&with(true, false, false), false);
        assert!(game.player_x >= 1 && game.player_x <= WIDTH - 2);
    }
    assert_eq!(game.player_x, 1);
    assert_eq!(game.player_y, HEIGHT - 2);
}

#[test]
fn finished_game_is_frozen() {
    let mut game = Game::new(false);
    game.state = GameState::GameOver;
    game.bullet = Some((6, 2));
    let invaders = game.invaders.clone();
    for march in [false, true, true] {
        game.step(&with(true, false, true), march);
        game.update(&with(false, true, true));
    }
    assert_eq!(game.state, GameState::GameOver);
    assert_eq!(game.player_x, 20);
    assert_eq!(game.bullet, Some((6, 2)));
    assert_eq!(game.invaders, invaders);
    assert_eq!(game.score, 0);
    assert!(game.is_finished());
}

#[test]
fn update_runs_a_tick() {
    let mut game = Game::new(false);
    game.update(&with(true, false, false));
    assert_eq!(game.player_x, 19);
    assert_eq!(game.state, GameState::Playing);
    assert!(!game.is_finished());
}

#[test]
fn tick_moves_formation_at_cadence() {
    let mut game = Game::new(false);
    let start = game.invaders.clone();
    game.tick(&idle(), 499);
    assert_eq!(game.invaders, start);
    game.tick(&idle(), 500);
    let shifted: Vec<(u16, u16)> = start.iter().map(|&(x, y)| (x + 1, y)).collect();
    assert_eq!(game.invaders, shifted);
    game.tick(&idle(), 1200);
    let shifted: Vec<(u16, u16)> = start.iter().map(|&(x, y)| (x + 2, y)).collect();
    assert_eq!(game.invaders, shifted);
}
