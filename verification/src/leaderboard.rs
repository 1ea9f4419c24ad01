use vstd::prelude::*;
use crate::difficulty::Difficulty;
use vstd::string::StringSliceAdditionalSpecFns;

verus! {

/// A recorded score as the leaderboard service stores and returns it.
/// The identifier, the creation time and the rank are assigned by the
/// service, so a record travels without them too.
#[derive(Debug)]
pub struct Score {
    pub id: Option<String>,
    pub player_name: String,
    pub score: u32,
    pub level: u32,
    pub difficulty: String,
    pub created_at: Option<String>,
    pub rank: Option<u32>,
}

/// A score submission: what the game sends when a run ends.
#[derive(Debug)]
pub struct CreateScoreRequest {
    pub player_name: String,
    pub score: u32,
    pub level: u32,
    pub difficulty: String,
}

/// One page of the leaderboard.
#[derive(Debug)]
pub struct LeaderboardResponse {
    pub scores: Vec<Score>,
    pub total: usize,
    pub limit: usize,
    pub offset: usize,
}

/// How many of a player's runs used each difficulty.
#[derive(Clone, Copy, Debug, PartialEq, Eq, Structural)]
pub struct DifficultyScores {
    pub easy: u32,
    pub medium: u32,
    pub hard: u32,
}

/// The query parameters of a leaderboard page.
#[derive(Debug)]
pub struct LeaderboardQuery {
    pub limit: Option<usize>,
    pub offset: Option<usize>,
    pub difficulty: Option<String>,
}

/// An error answer of the leaderboard service.
#[derive(Debug)]
pub struct ErrorResponse {
    pub error: String,
    pub message: String,
    pub timestamp: String,
}

/// A player name the service accepts: between one and fifty bytes.
pub fn validate_player_name(name: &str) -> (r: bool)
    ensures
        r == (1 <= name.spec_bytes().len() <= 50),
{
    let n = name.as_bytes().len();
    1 <= n && n <= 50
}

/// The difficulty a submitted tag names, if it names one: only the
/// three exact tags are accepted.
pub fn difficulty_from_name(s: &str) -> (r: Option<Difficulty>)
    ensures
        r == (if s@ == "Easy"@ {
            Some(Difficulty::Easy)
        } else if s@ == "Medium"@ {
            Some(Difficulty::Medium)
        } else if s@ == "Hard"@ {
            Some(Difficulty::Hard)
        } else {
            None::<Difficulty>
        }),
{
    let owned = s.to_owned();
    if owned == "Easy".to_owned() {
        Some(Difficulty::Easy)
    } else if owned == "Medium".to_owned() {
        Some(Difficulty::Medium)
    } else if owned == "Hard".to_owned() {
        Some(Difficulty::Hard)
    } else {
        None
    }
}

/// The tag under which a difficulty is stored.
pub fn difficulty_name(d: Difficulty) -> (r: String)
    ensures
        r@ == (match d {
            Difficulty::Easy => "Easy"@,
            Difficulty::Medium => "Medium"@,
            Difficulty::Hard => "Hard"@,
        }),
{
    match d {
        Difficulty::Easy => "Easy".to_owned(),
        Difficulty::Medium => "Medium".to_owned(),
        Difficulty::Hard => "Hard".to_owned(),
    }
}

/// The page size a leaderboard query is granted: ten when none is
/// asked for, and never more than a hundred.
pub fn clamp_limit(limit: Option<usize>) -> (r: usize)
    ensures
        r == (match limit {
            Some(l) => (if l < 100 {
                l as int
            } else {
                100int
            }),
            None => 10int,
        }),
{
    match limit {
        Some(l) => {
            if l < 100 {
                l
            } else {
                100
            }
        },
        None => 10,
    }
}

/// Stamp a page of scores with their ranks: the record in position `i`
/// of a page starting at `offset` holds rank `offset + i + 1`. Every
/// other field is kept.
pub fn assign_ranks(scores: Vec<Score>, offset: u32) -> (r: Vec<Score>)
    requires
        offset + scores@.len() <= u32::MAX,
    ensures
        r@.len() == scores@.len(),
        forall|i: int|
            0 <= i < scores@.len() ==> #[trigger] r@[i] == (Score {
                rank: Some((offset + i + 1) as u32),
                ..scores@[i]
            }),
{
    let ghost orig = scores@;
    let mut rest = scores;
    let mut out: Vec<Score> = Vec::new();
    while rest.len() > 0
        invariant
            out@.len() + rest@.len() == orig.len(),
            offset + orig.len() <= u32::MAX,
            forall|i: int| 0 <= i < rest@.len() ==> rest@[i] == orig[out@.len() + i],
            forall|i: int|
                0 <= i < out@.len() ==> #[trigger] out@[i] == (Score {
                    rank: Some((offset + i + 1) as u32),
                    ..orig[i]
                }),
        decreases rest@.len(),
    {
        let s = rest.remove(0);
        let n: u32 = offset + out.len() as u32 + 1;
        out.push(Score { rank: Some(n), ..s });
    }
    out
}

/// The difficulty a player used most, with the service's tie rule: ties
/// prefer Easy, then Hard, and Medium is the default when all counts
/// are zero.
pub fn favorite_difficulty(counts: DifficultyScores) -> (r: Difficulty)
    ensures
        ({
            let m = vstd::math::max(
                vstd::math::max(counts.easy as int, counts.medium as int),
                counts.hard as int,
            );
            r == (if m == counts.easy && counts.easy > 0 {
                Difficulty::Easy
            } else if m == counts.hard && counts.hard > 0 {
                Difficulty::Hard
            } else {
                Difficulty::Medium
            })
        }),
{
    let mut m = counts.easy;
    if counts.medium > m {
        m = counts.medium;
    }
    if counts.hard > m {
        m = counts.hard;
    }
    if m == counts.easy && counts.easy > 0 {
        Difficulty::Easy
    } else if m == counts.hard && counts.hard > 0 {
        Difficulty::Hard
    } else {
        Difficulty::Medium
    }
}

} // verus!
