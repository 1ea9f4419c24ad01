use vstd::prelude::*;
use crate::difficulty::{Difficulty, DifficultySettings};
use crate::effects::PowerUpEffects;
use crate::units::DT_CAP_MS;
use crate::world::World;

verus! {

/// The discrete game-flow state.
#[derive(Clone, Copy, Debug, PartialEq, Eq, Structural)]
pub enum GameState {
    MainMenu,
    DifficultySelect,
    Playing,
    Paused,
    GameOver,
    Victory,
    NextLevel,
    EnterName,
    Leaderboard,
}

/// The name being typed on the name-entry screen, with its blinking
/// cursor. The text is kept as plain characters.
#[derive(Clone, Debug)]
pub struct NameInput {
    pub text: Vec<char>,
    pub cursor_visible: bool,
    pub cursor_timer_ms: i64,
}

impl NameInput {
    pub open spec fn wf(self) -> bool {
        &&& self.text@.len() <= 20
        &&& -100_000_000 <= self.cursor_timer_ms <= 100_000_000
    }
}

impl Default for NameInput {
    fn default() -> (r: NameInput)
        ensures
            r.text@ == Seq::<char>::empty(),
            r.cursor_visible == true,
            r.cursor_timer_ms == 0,
            r.wf(),
    {
        NameInput { text: Vec::new(), cursor_visible: true, cursor_timer_ms: 0 }
    }
}

/// Whether a character is alphanumeric in the Unicode sense; only such
/// characters and spaces may enter a player name.
pub uninterp spec fn alphanumeric(c: char) -> bool;

/// Relies on char::is_alphanumeric, whose result is a function of the
/// character alone.
#[verifier::external_body]
pub fn char_is_alphanumeric(c: char) -> (r: bool)
    ensures
        r == alphanumeric(c),
{
    c.is_alphanumeric()
}

/// The name text after a batch of typed characters: each alphanumeric or
/// space character is appended in order while the text is under twenty
/// characters; every other character is silently rejected.
pub open spec fn pushed_chars(text: Seq<char>, typed: Seq<char>) -> Seq<char>
    decreases typed.len(),
{
    if typed.len() == 0 {
        text
    } else {
        let grown = if (alphanumeric(typed[0]) || typed[0] == ' ') && text.len() < 20 {
            text.push(typed[0])
        } else {
            text
        };
        pushed_chars(grown, typed.drop_first())
    }
}

/// Leading spaces removed.
pub open spec fn trim_front(s: Seq<char>) -> Seq<char>
    decreases s.len(),
{
    if s.len() > 0 && s[0] == ' ' {
        trim_front(s.drop_first())
    } else {
        s
    }
}

/// Trailing spaces removed.
pub open spec fn trim_back(s: Seq<char>) -> Seq<char>
    decreases s.len(),
{
    if s.len() > 0 && s.last() == ' ' {
        trim_back(s.drop_last())
    } else {
        s
    }
}

/// Leading and trailing spaces removed.
pub open spec fn spec_trim(s: Seq<char>) -> Seq<char> {
    trim_back(trim_front(s))
}

/// Exec mirror of `spec_trim`.
pub fn trimmed(v: &Vec<char>) -> (r: Vec<char>)
    ensures
        r@ == spec_trim(v@),
        r@.len() <= v@.len(),
{
    let ghost orig = v@;
    let mut start: usize = 0;
    proof {
        assert(orig.skip(0) =~= orig);
    }
    while start < v.len() && v[start] == ' '
        invariant
            0 <= start <= v@.len(),
            v@ == orig,
            trim_front(orig) == trim_front(orig.skip(start as int)),
        decreases v@.len() - start,
    {
        proof {
            assert(orig.skip(start as int)[0] == orig[start as int]);
            assert(orig.skip(start as int).drop_first() =~= orig.skip(start as int + 1));
        }
        start += 1;
    }
    proof {
        assert(trim_front(orig) =~= orig.skip(start as int));
    }
    let mut end: usize = v.len();
    proof {
        assert(orig.skip(start as int).take(end - start) =~= orig.skip(start as int));
    }
    while end > start && v[end - 1] == ' '
        invariant
            start <= end <= v@.len(),
            v@ == orig,
            trim_front(orig) == orig.skip(start as int),
            trim_back(orig.skip(start as int)) == trim_back(
                orig.skip(start as int).take(end - start),
            ),
        decreases end,
    {
        proof {
            let cur = orig.skip(start as int).take(end - start);
            assert(cur.last() == orig[end - 1]);
            assert(cur.drop_last() =~= orig.skip(start as int).take(end - 1 - start));
        }
        end -= 1;
    }
    proof {
        let cur = orig.skip(start as int).take(end - start);
        assert(trim_back(cur) =~= cur);
    }
    let mut out: Vec<char> = Vec::new();
    let mut j: usize = start;
    while j < end
        invariant
            start <= j <= end <= v@.len(),
            v@ == orig,
            out@ =~= orig.skip(start as int).take(j - start),
        decreases end - j,
    {
        out.push(v[j]);
        proof {
            assert(out@ =~= orig.skip(start as int).take(j + 1 - start));
        }
        j += 1;
    }
    proof {
        assert(out@ =~= spec_trim(orig));
    }
    out
}

impl World {
    /// On the main menu, start begins name entry (clearing the typed
    /// name, the entry screen's entry action) and the leaderboard key
    /// shows the leaderboard.
    pub fn main_menu_system(&mut self, start: bool, leaderboard: bool)
        requires
            old(self).state is MainMenu,
        ensures
            final(self).state == (if start {
                GameState::EnterName
            } else if leaderboard {
                GameState::Leaderboard
            } else {
                GameState::MainMenu
            }),
            start ==> final(self).name_input.text@.len() == 0 && final(self).name_input.cursor_visible && final(self).name_input.cursor_timer_ms == 0,
            !start ==> final(self).name_input == old(self).name_input,
            *final(self) == (World {
                state: final(self).state,
                name_input: final(self).name_input,
                ..*old(self)
            }),
    {
        if start {
            self.name_input = NameInput::default();
            self.state = GameState::EnterName;
        } else if leaderboard {
            self.state = GameState::Leaderboard;
        }
    }

    /// On the name-entry screen: filter and append the typed characters,
    /// apply backspace, and on enter with a non-blank name record the
    /// trimmed name and move to difficulty selection; escape skips.
    pub fn enter_name_system(
        &mut self,
        typed: &Vec<char>,
        backspace: bool,
        enter: bool,
        escape: bool,
    )
        requires
            old(self).wf(),
            old(self).state is EnterName,
        ensures
            final(self).wf(),
            ({
                let t1 = pushed_chars(old(self).name_input.text@, typed@);
                let t2 = if backspace && t1.len() > 0 {
                    t1.drop_last()
                } else {
                    t1
                };
                let confirmed = enter && spec_trim(t2).len() > 0;
                &&& final(self).name_input.text@ == t2
                &&& final(self).state == (if confirmed || escape {
                    GameState::DifficultySelect
                } else {
                    GameState::EnterName
                })
                &&& final(self).player_name@ == (if confirmed {
                    spec_trim(t2)
                } else {
                    old(self).player_name@
                })
            }),
            *final(self) == (World {
                state: final(self).state,
                player_name: final(self).player_name,
                name_input: final(self).name_input,
                ..*old(self)
            }),
    {
        let ghost text0 = self.name_input.text@;
        let mut i: usize = 0;
        proof {
            assert(typed@.skip(0) =~= typed@);
        }
        while i < typed.len()
            invariant
                0 <= i <= typed@.len(),
                self.name_input.text@.len() <= 20,
                pushed_chars(self.name_input.text@, typed@.skip(i as int)) == pushed_chars(
                    text0,
                    typed@,
                ),
                *self == (World { name_input: self.name_input, ..*old(self) }),
                self.name_input.cursor_visible == old(self).name_input.cursor_visible,
                self.name_input.cursor_timer_ms == old(self).name_input.cursor_timer_ms,
            decreases typed@.len() - i,
        {
            proof {
                assert(typed@.skip(i as int)[0] == typed@[i as int]);
                assert(typed@.skip(i as int).drop_first() =~= typed@.skip(i as int + 1));
            }
            let c = typed[i];
            if (char_is_alphanumeric(c) || c == ' ') && self.name_input.text.len() < 20 {
                self.name_input.text.push(c);
            }
            i += 1;
        }
        proof {
            assert(typed@.skip(typed@.len() as int) =~= Seq::<char>::empty());
        }
        if backspace && self.name_input.text.len() > 0 {
            self.name_input.text.pop();
        }
        if enter {
            let t = trimmed(&self.name_input.text);
            if t.len() > 0 {
                self.player_name = t;
                self.state = GameState::DifficultySelect;
                return ;
            }
        }
        if escape {
            self.state = GameState::DifficultySelect;
        }
    }

    /// Blink the name-entry cursor with a half-second period.
    pub fn update_cursor(&mut self, dt_ms: i64)
        requires
            old(self).wf(),
            0 <= dt_ms <= DT_CAP_MS,
        ensures
            final(self).wf(),
            ({
                let t = old(self).name_input.cursor_timer_ms + dt_ms;
                &&& final(self).name_input.cursor_timer_ms == (if t >= 500 {
                    0int
                } else {
                    t
                })
                &&& final(self).name_input.cursor_visible == (if t >= 500 {
                    !old(self).name_input.cursor_visible
                } else {
                    old(self).name_input.cursor_visible
                })
                &&& final(self).name_input.text == old(self).name_input.text
            }),
            *final(self) == (World { name_input: final(self).name_input, ..*old(self) }),
    {
        self.name_input.cursor_timer_ms = self.name_input.cursor_timer_ms + dt_ms;
        if self.name_input.cursor_timer_ms >= 500 {
            self.name_input.cursor_visible = !self.name_input.cursor_visible;
            self.name_input.cursor_timer_ms = 0;
        }
    }

    /// On the difficulty screen a digit choice installs that difficulty's
    /// settings, grants its lives, and enters play, building the field if
    /// it is not already built.
    pub fn difficulty_menu_system(&mut self, one: bool, two: bool, three: bool)
        requires
            old(self).wf(),
            old(self).state is DifficultySelect,
        ensures
            final(self).wf(),
            !(one || two || three) ==> *final(self) == *old(self),
            (one || two || three) ==> ({
                let d = if one {
                    Difficulty::Easy
                } else if two {
                    Difficulty::Medium
                } else {
                    Difficulty::Hard
                };
                let mid = World {
                    settings: DifficultySettings::spec_new(d),
                    lives: DifficultySettings::spec_new(d).lives,
                    state: GameState::Playing,
                    ..*old(self)
                };
                &&& final(self).settings == DifficultySettings::spec_new(d)
                &&& final(self).state is Playing
                &&& (old(self).game_initialized ==> *final(self) == mid)
                &&& (!old(self).game_initialized ==> crate::world::setup_game_rel(
                    World { game_initialized: true, ..mid },
                    *final(self),
                ) && final(self).game_initialized)
            }),
    {
        if one || two || three {
            let d = if one {
                Difficulty::Easy
            } else if two {
                Difficulty::Medium
            } else {
                Difficulty::Hard
            };
            self.settings = DifficultySettings::new(d);
            self.lives = self.settings.lives;
            self.state = GameState::Playing;
            self.setup_game_conditional();
        }
    }

    /// While playing, escape pauses; the play-field is left untouched.
    pub fn pause_game_input(&mut self, escape: bool)
        ensures
            crate::world::pause_game_input_rel(*old(self), *final(self), escape),
    {
        if escape {
            self.state = GameState::Paused;
        }
    }

    /// On the pause screen: resume returns to play without rebuilding
    /// the field; new-game tears everything down, resets the run ledger
    /// and the effects, and starts a fresh level 1; the menu key does the
    /// same reset but returns to the main menu.
    pub fn pause_menu_system(&mut self, resume: bool, new_game: bool, to_menu: bool)
        requires
            old(self).wf(),
            old(self).state is Paused,
        ensures
            final(self).wf(),
            resume ==> ({
                &&& final(self).state is Playing
                &&& (old(self).game_initialized ==> *final(self) == (World {
                    state: GameState::Playing,
                    ..*old(self)
                }))
                &&& (!old(self).game_initialized ==> crate::world::setup_game_rel(
                    World { state: GameState::Playing, game_initialized: true, ..*old(self) },
                    *final(self),
                ) && final(self).game_initialized)
            }),
            !resume && new_game ==> ({
                &&& final(self).state is Playing
                &&& final(self).level == 1
                &&& final(self).effects == PowerUpEffects::spec_default()
                &&& final(self).settings == old(self).settings
                &&& final(self).score == 0
                &&& final(self).lives == old(self).settings.lives
                &&& final(self).level_timer_ms == (match old(self).settings.time_limit_ms {
                    Some(t) => t as int,
                    None => old(self).level_timer_ms as int,
                })
                &&& final(self).player_name == old(self).player_name
                &&& final(self).name_input == old(self).name_input
                &&& final(self).game_initialized
                &&& crate::world::fresh_field(*final(self))
            }),
            !resume && !new_game && to_menu ==> ({
                &&& final(self).state is MainMenu
                &&& final(self).level == 1
                &&& final(self).score == 0
                &&& final(self).lives == old(self).settings.lives
                &&& final(self).effects == PowerUpEffects::spec_default()
                &&& final(self).settings == old(self).settings
                &&& final(self).level_timer_ms == old(self).level_timer_ms
                &&& final(self).player_name == old(self).player_name
                &&& final(self).name_input == old(self).name_input
                &&& !final(self).game_initialized
                &&& final(self).paddle is None
                &&& final(self).balls@.len() == 0
                &&& final(self).bricks@.len() == 0
                &&& final(self).powerups@.len() == 0
                &&& final(self).lasers@.len() == 0
                &&& final(self).particles@.len() == 0
            }),
            !resume && !new_game && !to_menu ==> *final(self) == *old(self),
    {
        if resume {
            self.state = GameState::Playing;
            self.setup_game_conditional();
        } else if new_game {
            self.cleanup_game();
            self.level = 1;
            self.score = 0;
            self.lives = self.settings.lives;
            self.effects = PowerUpEffects::default();
            self.state = GameState::Playing;
            self.setup_game_conditional();
        } else if to_menu {
            self.cleanup_game();
            self.level = 1;
            self.score = 0;
            self.lives = self.settings.lives;
            self.effects = PowerUpEffects::default();
            self.state = GameState::MainMenu;
        }
    }

    /// On the game-over screen: confirm resets the run for a new game
    /// and returns to the main menu; the leaderboard key shows the
    /// leaderboard.
    pub fn game_over_system(&mut self, space: bool, leaderboard: bool)
        requires
            old(self).wf(),
            old(self).state is GameOver,
        ensures
            final(self).wf(),
            space ==> *final(self) == (World {
                state: GameState::MainMenu,
                level: 1u32,
                effects: PowerUpEffects::spec_default(),
                lives: old(self).settings.lives,
                game_initialized: false,
                ..*old(self)
            }),
            !space && leaderboard ==> *final(self) == (World {
                state: GameState::Leaderboard,
                ..*old(self)
            }),
            !space && !leaderboard ==> *final(self) == *old(self),
    {
        if space {
            self.level = 1;
            self.effects = PowerUpEffects::default();
            self.lives = self.settings.lives;
            self.game_initialized = false;
            self.state = GameState::MainMenu;
        } else if leaderboard {
            self.state = GameState::Leaderboard;
        }
    }

    /// On the victory screen, confirm advances to the next level.
    pub fn victory_system(&mut self, space: bool)
        requires
            old(self).wf(),
            old(self).state is Victory,
            old(self).level < u32::MAX,
        ensures
            final(self).wf(),
            !space ==> *final(self) == *old(self),
            space ==> ({
                &&& final(self).level == old(self).level + 1
                &&& final(self).effects == PowerUpEffects::spec_default()
                &&& final(self).state is Playing
                &&& final(self).score == old(self).score
                &&& final(self).lives == (if old(self).settings.reset_lives_on_level {
                    old(self).settings.lives
                } else {
                    old(self).lives
                })
                &&& final(self).settings == old(self).settings
                &&& final(self).player_name == old(self).player_name
                &&& final(self).name_input == old(self).name_input
                &&& final(self).level_timer_ms == (match old(self).settings.time_limit_ms {
                    Some(t) => t as int,
                    None => old(self).level_timer_ms as int,
                })
                &&& crate::world::fresh_field(*final(self))
            }),
    {
        if space {
            self.next_level_setup();
        }
    }

    /// Advance to the next level: tear the field down, bump the level,
    /// reset the power-up effects, and re-enter play with a fresh field.
    pub fn next_level_setup(&mut self)
        requires
            old(self).wf(),
            old(self).level < u32::MAX,
        ensures
            final(self).wf(),
            final(self).level == old(self).level + 1,
            final(self).effects == PowerUpEffects::spec_default(),
            final(self).state is Playing,
            final(self).score == old(self).score,
            final(self).lives == (if old(self).settings.reset_lives_on_level {
                old(self).settings.lives
            } else {
                old(self).lives
            }),
            final(self).settings == old(self).settings,
            final(self).player_name == old(self).player_name,
            final(self).name_input == old(self).name_input,
            final(self).level_timer_ms == (match old(self).settings.time_limit_ms {
                Some(t) => t as int,
                None => old(self).level_timer_ms as int,
            }),
            crate::world::fresh_field(*final(self)),
    {
        self.cleanup_game();
        self.level = self.level + 1;
        self.effects = PowerUpEffects::default();
        self.state = GameState::Playing;
        self.setup_game_conditional();
    }

    /// On the leaderboard screen, confirm returns to the main menu.
    pub fn leaderboard_system(&mut self, space: bool)
        requires
            old(self).state is Leaderboard,
        ensures
            final(self).state == (if space {
                GameState::MainMenu
            } else {
                GameState::Leaderboard
            }),
            space ==> !final(self).game_initialized,
            *final(self) == (World {
                state: final(self).state,
                game_initialized: final(self).game_initialized,
                ..*old(self)
            }),
    {
        if space {
            self.game_initialized = false;
            self.state = GameState::MainMenu;
        }
    }
}

} // verus!
