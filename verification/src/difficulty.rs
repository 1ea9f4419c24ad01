use vstd::prelude::*;

verus! {

/// The difficulty chosen once per run.
#[derive(Clone, Copy, Debug, PartialEq, Eq, Structural)]
pub enum Difficulty {
    Easy,
    Medium,
    Hard,
}

/// The immutable bundle of gameplay constants selected with a difficulty.
/// Rate modifiers are thousandths; the time limit is in milliseconds.
#[derive(Clone, Copy, Debug, PartialEq, Eq, Structural)]
pub struct DifficultySettings {
    pub difficulty: Difficulty,
    pub lives: u32,
    pub ball_speed_modifier: i64,
    pub paddle_speed_modifier: i64,
    pub reset_lives_on_level: bool,
    pub time_limit_ms: Option<i64>,
}

impl DifficultySettings {
    /// The fixed parameter set of each difficulty.
    pub open spec fn spec_new(difficulty: Difficulty) -> DifficultySettings {
        match difficulty {
            Difficulty::Easy => DifficultySettings {
                difficulty,
                lives: 5,
                ball_speed_modifier: 800,
                paddle_speed_modifier: 1000,
                reset_lives_on_level: true,
                time_limit_ms: None,
            },
            Difficulty::Medium => DifficultySettings {
                difficulty,
                lives: 3,
                ball_speed_modifier: 1000,
                paddle_speed_modifier: 1200,
                reset_lives_on_level: false,
                time_limit_ms: None,
            },
            Difficulty::Hard => DifficultySettings {
                difficulty,
                lives: 3,
                ball_speed_modifier: 1300,
                paddle_speed_modifier: 1800,
                reset_lives_on_level: false,
                time_limit_ms: Some(180_000i64),
            },
        }
    }

    /// Settings that any reachable `DifficultySettings` value satisfies.
    pub open spec fn wf(self) -> bool {
        &&& 500 <= self.ball_speed_modifier <= 2000
        &&& 500 <= self.paddle_speed_modifier <= 2000
        &&& self.lives >= 1
        &&& match self.time_limit_ms {
            Some(t) => 0 < t <= 1_000_000_000,
            None => true,
        }
    }

    pub fn new(difficulty: Difficulty) -> (r: DifficultySettings)
        ensures
            r == DifficultySettings::spec_new(difficulty),
            r.wf(),
    {
        match difficulty {
            Difficulty::Easy => DifficultySettings {
                difficulty,
                lives: 5,
                ball_speed_modifier: 800,
                paddle_speed_modifier: 1000,
                reset_lives_on_level: true,
                time_limit_ms: None,
            },
            Difficulty::Medium => DifficultySettings {
                difficulty,
                lives: 3,
                ball_speed_modifier: 1000,
                paddle_speed_modifier: 1200,
                reset_lives_on_level: false,
                time_limit_ms: None,
            },
            Difficulty::Hard => DifficultySettings {
                difficulty,
                lives: 3,
                ball_speed_modifier: 1300,
                paddle_speed_modifier: 1800,
                reset_lives_on_level: false,
                time_limit_ms: Some(180_000i64),
            },
        }
    }
}

} // verus!
