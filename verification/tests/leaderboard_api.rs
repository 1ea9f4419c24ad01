use breakout_core::difficulty::Difficulty;
use breakout_core::flow::char_is_alphanumeric;
use breakout_core::leaderboard::{
    assign_ranks, clamp_limit, difficulty_from_name, difficulty_name, favorite_difficulty,
    validate_player_name, CreateScoreRequest, DifficultyScores, LeaderboardQuery, Score,
};
use breakout_core::rng::random_in_range;

#[test]
fn clamp_limit_defaults_and_caps() {
    assert_eq!(clamp_limit(None), 10);
    assert_eq!(clamp_limit(Some(5)), 5);
    assert_eq!(clamp_limit(Some(100)), 100);
    assert_eq!(clamp_limit(Some(5_000)), 100);
}

#[test]
fn assign_ranks_numbers_a_page_from_its_offset() {
    let scores = vec![
        Score {
            id: None,
            player_name: "Ada".to_string(),
            score: 900,
            level: 3,
            difficulty: "Hard".to_string(),
            created_at: None,
            rank: None,
        },
        Score {
            id: None,
            player_name: "Grace".to_string(),
            score: 700,
            level: 2,
            difficulty: "Easy".to_string(),
            created_at: None,
            rank: None,
        },
    ];
    let ranked = assign_ranks(scores, 10);
    assert_eq!(ranked.len(), 2);
    assert_eq!(ranked[0].rank, Some(11));
    assert_eq!(ranked[1].rank, Some(12));
    assert_eq!(ranked[0].player_name, "Ada");
    assert_eq!(ranked[1].score, 700);
}

#[test]
fn favorite_difficulty_ties_prefer_easy_then_hard() {
    let zero = DifficultyScores {
        easy: 0,
        medium: 0,
        hard: 0,
    };
    assert_eq!(favorite_difficulty(zero), Difficulty::Medium);
    let tied = DifficultyScores {
        easy: 3,
        medium: 3,
        hard: 3,
    };
    assert_eq!(favorite_difficulty(tied), Difficulty::Easy);
    let hard_heavy = DifficultyScores {
        easy: 1,
        medium: 4,
        hard: 4,
    };
    assert_eq!(favorite_difficulty(hard_heavy), Difficulty::Hard);
    let medium_top = DifficultyScores {
        easy: 1,
        medium: 9,
        hard: 4,
    };
    assert_eq!(favorite_difficulty(medium_top), Difficulty::Medium);
}

#[test]
fn only_the_three_exact_difficulty_tags_parse() {
    assert_eq!(difficulty_from_name("Easy"), Some(Difficulty::Easy));
    assert_eq!(difficulty_from_name("Medium"), Some(Difficulty::Medium));
    assert_eq!(difficulty_from_name("Hard"), Some(Difficulty::Hard));
    assert_eq!(difficulty_from_name("easy"), None);
    assert_eq!(difficulty_from_name("Nightmare"), None);
    assert_eq!(difficulty_from_name(""), None);
}

#[test]
fn difficulty_names_round_trip() {
    for d in [Difficulty::Easy, Difficulty::Medium, Difficulty::Hard] {
        let name = difficulty_name(d);
        assert_eq!(difficulty_from_name(&name), Some(d));
    }
}

#[test]
fn player_name_length_bounds() {
    assert!(!validate_player_name(""));
    assert!(validate_player_name("x"));
    let fifty = "a".repeat(50);
    assert!(validate_player_name(&fifty));
    let fifty_one = "a".repeat(51);
    assert!(!validate_player_name(&fifty_one));
}

#[test]
fn request_and_query_carry_plain_values() {
    let req = CreateScoreRequest {
        player_name: "Ada".to_string(),
        score: 1234,
        level: 5,
        difficulty: "Hard".to_string(),
    };
    assert!(validate_player_name(&req.player_name));
    assert_eq!(difficulty_from_name(&req.difficulty), Some(Difficulty::Hard));

    let q = LeaderboardQuery {
        limit: Some(3),
        offset: None,
        difficulty: Some("Easy".to_string()),
    };
    assert_eq!(clamp_limit(q.limit), 3);
}

#[test]
fn random_draw_respects_its_bounds() {
    // A one-value range forces the draw.
    assert_eq!(random_in_range(5, 6), 5);
    for _ in 0..100 {
        let r = random_in_range(-3, 4);
        assert!((-3..4).contains(&r));
    }
}

#[test]
fn alphanumeric_test_matches_unicode_classes() {
    assert!(char_is_alphanumeric('a'));
    assert!(char_is_alphanumeric('Z'));
    assert!(char_is_alphanumeric('7'));
    assert!(!char_is_alphanumeric(' '));
    assert!(!char_is_alphanumeric('!'));
    assert!(!char_is_alphanumeric('-'));
}
