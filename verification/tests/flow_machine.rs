use breakout_core::difficulty::{Difficulty, DifficultySettings};
use breakout_core::flow::{GameState, NameInput};
use breakout_core::world::World;

#[test]
fn difficulty_settings_hold_their_fixed_parameters() {
    let easy = DifficultySettings::new(Difficulty::Easy);
    assert_eq!(easy.lives, 5);
    assert_eq!(easy.ball_speed_modifier, 800);
    assert_eq!(easy.paddle_speed_modifier, 1000);
    assert!(easy.reset_lives_on_level);
    assert!(easy.time_limit_ms.is_none());

    let medium = DifficultySettings::new(Difficulty::Medium);
    assert_eq!(medium.lives, 3);
    assert_eq!(medium.ball_speed_modifier, 1000);
    assert_eq!(medium.paddle_speed_modifier, 1200);
    assert!(!medium.reset_lives_on_level);
    assert!(medium.time_limit_ms.is_none());

    let hard = DifficultySettings::new(Difficulty::Hard);
    assert_eq!(hard.lives, 3);
    assert_eq!(hard.ball_speed_modifier, 1300);
    assert_eq!(hard.paddle_speed_modifier, 1800);
    assert!(!hard.reset_lives_on_level);
    assert_eq!(hard.time_limit_ms, Some(180_000));
}

#[test]
fn name_input_defaults_are_empty() {
    let n = NameInput::default();
    assert!(n.text.is_empty());
    assert!(n.cursor_visible);
    assert_eq!(n.cursor_timer_ms, 0);
}

#[test]
fn fresh_world_starts_at_the_main_menu() {
    let w = World::new();
    assert!(matches!(w.state, GameState::MainMenu));
    assert_eq!(w.score, 0);
    assert_eq!(w.level, 1);
    assert_eq!(w.lives, 3);
    assert_eq!(w.effects.paddle_size_modifier, 1000);
    assert_eq!(w.effects.ball_speed_modifier, 1000);
    assert!(w.balls.is_empty() && w.bricks.is_empty());
    let name: String = w.player_name.iter().collect();
    assert_eq!(name, "Player");
}

#[test]
fn menu_flow_reaches_a_built_playing_field() {
    let mut w = World::new();
    w.main_menu_system(true, false);
    assert!(matches!(w.state, GameState::EnterName));

    let typed: Vec<char> = "Ada".chars().collect();
    w.enter_name_system(&typed, false, true, false);
    assert!(matches!(w.state, GameState::DifficultySelect));
    let name: String = w.player_name.iter().collect();
    assert_eq!(name, "Ada");

    w.difficulty_menu_system(true, false, false);
    assert!(matches!(w.state, GameState::Playing));
    assert_eq!(w.lives, 5);
    assert!(w.game_initialized);
    assert!(w.paddle.is_some());
    assert_eq!(w.balls.len(), 1);
    assert_eq!(w.bricks.len(), 60);
    // Level 1 deals only Normal and Hard bricks.
    assert!(w
        .bricks
        .iter()
        .all(|b| !matches!(b.brick_type, breakout_core::entities::BrickType::Unbreakable)));
}

#[test]
fn main_menu_leaderboard_branch_returns_to_menu() {
    let mut w = World::new();
    w.main_menu_system(false, true);
    assert!(matches!(w.state, GameState::Leaderboard));
    w.leaderboard_system(true);
    assert!(matches!(w.state, GameState::MainMenu));
}

#[test]
fn name_entry_filters_length_and_characters() {
    let mut w = World::new();
    w.main_menu_system(true, false);

    // Punctuation is silently rejected; letters, digits and spaces pass.
    let typed: Vec<char> = "a!b 7#".chars().collect();
    w.enter_name_system(&typed, false, false, false);
    let text: String = w.name_input.text.iter().collect();
    assert_eq!(text, "ab 7");
    assert!(matches!(w.state, GameState::EnterName));

    // The name caps at twenty characters.
    let long: Vec<char> = "xxxxxxxxxxxxxxxxxxxxxxxxx".chars().collect();
    w.enter_name_system(&long, false, false, false);
    assert_eq!(w.name_input.text.len(), 20);

    // Backspace removes the last kept character.
    w.enter_name_system(&Vec::new(), true, false, false);
    assert_eq!(w.name_input.text.len(), 19);
}

#[test]
fn blank_name_is_not_confirmed_and_escape_skips() {
    let mut w = World::new();
    w.main_menu_system(true, false);
    let spaces: Vec<char> = "   ".chars().collect();
    w.enter_name_system(&spaces, false, true, false);
    // Enter with an all-space name does nothing.
    assert!(matches!(w.state, GameState::EnterName));
    let name: String = w.player_name.iter().collect();
    assert_eq!(name, "Player");

    w.enter_name_system(&Vec::new(), false, false, true);
    assert!(matches!(w.state, GameState::DifficultySelect));
    let name2: String = w.player_name.iter().collect();
    assert_eq!(name2, "Player");
}

#[test]
fn confirmed_name_is_trimmed() {
    let mut w = World::new();
    w.main_menu_system(true, false);
    let typed: Vec<char> = "  Grace H  ".chars().collect();
    w.enter_name_system(&typed, false, true, false);
    let name: String = w.player_name.iter().collect();
    assert_eq!(name, "Grace H");
}

#[test]
fn cursor_blinks_on_a_half_second_period() {
    let mut w = World::new();
    w.main_menu_system(true, false);
    assert!(w.name_input.cursor_visible);
    w.update_cursor(300);
    assert!(w.name_input.cursor_visible);
    assert_eq!(w.name_input.cursor_timer_ms, 300);
    w.update_cursor(300);
    assert!(!w.name_input.cursor_visible);
    assert_eq!(w.name_input.cursor_timer_ms, 0);
}

#[test]
fn pausing_keeps_the_field_and_resuming_does_not_rebuild_it() {
    let mut w = World::new();
    w.main_menu_system(true, false);
    let typed: Vec<char> = "Ada".chars().collect();
    w.enter_name_system(&typed, false, true, false);
    w.difficulty_menu_system(false, true, false);
    let bricks_before = w.bricks.clone();

    w.pause_game_input(true);
    assert!(matches!(w.state, GameState::Paused));
    assert_eq!(w.bricks.len(), 60);

    w.pause_menu_system(true, false, false);
    assert!(matches!(w.state, GameState::Playing));
    // The exact same bricks: the field was not rebuilt.
    assert_eq!(w.bricks.len(), bricks_before.len());
    for (a, b) in w.bricks.iter().zip(bricks_before.iter()) {
        assert_eq!(a.pos.x, b.pos.x);
        assert_eq!(a.health, b.health);
    }
}

#[test]
fn new_game_from_pause_resets_the_run() {
    let mut w = World::new();
    w.main_menu_system(true, false);
    let typed: Vec<char> = "Ada".chars().collect();
    w.enter_name_system(&typed, false, true, false);
    w.difficulty_menu_system(false, false, true);
    w.score = 4321;
    w.lives = 1;
    w.level = 7;
    w.effects.paddle_size_modifier = 2500;

    w.pause_game_input(true);
    w.pause_menu_system(false, true, false);
    assert!(matches!(w.state, GameState::Playing));
    assert_eq!(w.level, 1);
    assert_eq!(w.score, 0);
    assert_eq!(w.lives, 3);
    assert_eq!(w.effects.paddle_size_modifier, 1000);
    assert_eq!(w.bricks.len(), 60);
    assert!(w.game_initialized);
}

#[test]
fn quitting_to_menu_from_pause_tears_the_field_down() {
    let mut w = World::new();
    w.main_menu_system(true, false);
    let typed: Vec<char> = "Ada".chars().collect();
    w.enter_name_system(&typed, false, true, false);
    w.difficulty_menu_system(false, true, false);
    w.pause_game_input(true);
    w.pause_menu_system(false, false, true);
    assert!(matches!(w.state, GameState::MainMenu));
    assert!(w.paddle.is_none());
    assert_eq!(w.bricks.len(), 0);
    assert!(!w.game_initialized);
}

#[test]
fn next_level_rebuilds_with_effects_reset_and_score_kept() {
    let mut w = World::new();
    w.main_menu_system(true, false);
    let typed: Vec<char> = "Ada".chars().collect();
    w.enter_name_system(&typed, false, true, false);
    w.difficulty_menu_system(false, true, false);
    w.score = 600;
    w.lives = 2;
    w.effects.ball_speed_modifier = 2000;
    w.state = GameState::Victory;

    w.victory_system(true);
    assert!(matches!(w.state, GameState::Playing));
    assert_eq!(w.level, 2);
    assert_eq!(w.score, 600);
    // Medium does not reset lives between levels.
    assert_eq!(w.lives, 2);
    assert_eq!(w.effects.ball_speed_modifier, 1000);
    assert_eq!(w.bricks.len(), 60);
    assert_eq!(w.balls.len(), 1);
}

#[test]
fn easy_resets_lives_each_level() {
    let mut w = World::new();
    w.main_menu_system(true, false);
    let typed: Vec<char> = "Ada".chars().collect();
    w.enter_name_system(&typed, false, true, false);
    w.difficulty_menu_system(true, false, false);
    w.lives = 1;
    w.state = GameState::Victory;
    w.victory_system(true);
    assert_eq!(w.lives, 5);
}

#[test]
fn game_over_screen_resets_for_the_next_run() {
    let mut w = World::new();
    w.settings = DifficultySettings::new(Difficulty::Easy);
    w.state = GameState::GameOver;
    w.level = 4;
    w.score = 999;
    w.effects.has_laser = true;
    w.effects.laser_timer_ms = 1;
    w.game_over_system(true, false);
    assert!(matches!(w.state, GameState::MainMenu));
    assert_eq!(w.level, 1);
    assert_eq!(w.lives, 5);
    assert_eq!(w.score, 999);
    assert!(!w.effects.has_laser);
    assert!(!w.game_initialized);
}

#[test]
fn game_over_screen_can_branch_to_the_leaderboard() {
    let mut w = World::new();
    w.state = GameState::GameOver;
    w.game_over_system(false, true);
    assert!(matches!(w.state, GameState::Leaderboard));
    w.leaderboard_system(true);
    assert!(matches!(w.state, GameState::MainMenu));
}

#[test]
fn brick_mix_hardens_with_the_level() {
    let mut w = World::new();
    w.main_menu_system(true, false);
    let typed: Vec<char> = "Ada".chars().collect();
    w.enter_name_system(&typed, false, true, false);
    w.difficulty_menu_system(false, true, false);
    // Level 1: Normal bricks at one health, Hard bricks at two.
    assert_eq!(w.level, 1);
    for b in &w.bricks {
        match b.brick_type {
            breakout_core::entities::BrickType::Normal => assert_eq!(b.health, 1),
            breakout_core::entities::BrickType::Hard => assert_eq!(b.health, 2),
            breakout_core::entities::BrickType::Unbreakable => {
                panic!("level 1 deals no Unbreakable brick")
            }
        }
    }

    w.state = GameState::Victory;
    w.victory_system(true);
    assert_eq!(w.level, 2);
    for b in &w.bricks {
        match b.brick_type {
            breakout_core::entities::BrickType::Normal => assert_eq!(b.health, 1),
            breakout_core::entities::BrickType::Hard => assert_eq!(b.health, 2),
            breakout_core::entities::BrickType::Unbreakable => assert_eq!(b.health, -1),
        }
    }

    w.state = GameState::Victory;
    w.victory_system(true);
    assert_eq!(w.level, 3);
    for b in &w.bricks {
        match b.brick_type {
            breakout_core::entities::BrickType::Normal => assert_eq!(b.health, 1),
            breakout_core::entities::BrickType::Hard => assert_eq!(b.health, 3),
            breakout_core::entities::BrickType::Unbreakable => assert_eq!(b.health, -1),
        }
    }
}

#[test]
fn bricks_sit_on_the_grid() {
    let mut w = World::new();
    w.main_menu_system(true, false);
    let typed: Vec<char> = "Ada".chars().collect();
    w.enter_name_system(&typed, false, true, false);
    w.difficulty_menu_system(false, true, false);
    assert_eq!(w.bricks.len(), 60);
    // First row left corner, next column, and the last brick.
    assert_eq!(w.bricks[0].pos.x, -360_000);
    assert_eq!(w.bricks[0].pos.y, 200_000);
    assert_eq!(w.bricks[1].pos.x, -280_000);
    assert_eq!(w.bricks[1].pos.y, 200_000);
    assert_eq!(w.bricks[59].pos.x, 360_000);
    assert_eq!(w.bricks[59].pos.y, 25_000);
}

#[test]
fn spawned_ball_leaves_the_drop_point_diagonally() {
    let mut w = World::new();
    w.main_menu_system(true, false);
    let typed: Vec<char> = "Ada".chars().collect();
    w.enter_name_system(&typed, false, true, false);
    // Easy scales the base speed by 0.8.
    w.difficulty_menu_system(true, false, false);
    let b = &w.balls[0];
    assert_eq!(b.pos.x, 0);
    assert_eq!(b.pos.y, -200_000);
    assert_eq!(b.vel.y, 226_240);
    assert_eq!(b.vel.x.abs(), 226_240);
}
