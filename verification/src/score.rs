//! Score and difficulty: a running score fed by discrete scored actions,
//! each scaled by a difficulty factor that ramps linearly with elapsed time,
//! and a game-over rule when the score goes negative.
//!
//! The difficulty factor is carried in thousandths, so a factor of `1000`
//! means 1.0 and the cap `2000` means 2.0; it ramps by one thousandth per
//! 100 ms, that is by 0.01 per second.

use vstd::prelude::*;
use vstd::arithmetic::div_mod::{lemma_div_is_ordered, lemma_div_nonincreasing};
use crate::vec3::Vec3i;
use crate::arena::ArenaMode;

verus! {

/// Base value of a missed action.
pub const DEFAULT_BAD_ACTION_SCORE: i32 = -10;

/// Base value of an ordinary successful action.
pub const DEFAULT_GOOD_ACTION_SCORE: i32 = 10;

/// Base value of a perfect action.
pub const DEFAULT_PERFECT_ACTION_SCORE: i32 = 15;

/// Difficulty factor at the start, in thousandths.
pub const INITIAL_DIFFICULTY_FACTOR_MILLI: u64 = 1000;

/// Ceiling of the difficulty factor, in thousandths.
pub const MAX_DIFFICULTY_FACTOR_MILLI: u64 = 2000;

/// The running score. The high score only ever increases; the current score
/// may go negative, which ends the game.
#[derive(Clone, Copy, Debug, PartialEq, Eq, Structural)]
pub struct Score {
    pub highscore: u32,
    pub current: i32,
}

/// Elapsed playing time, from which the difficulty factor is derived.
#[derive(Clone, Copy, Debug, PartialEq, Eq, Structural)]
pub struct Difficulty {
    pub time_elapsed_ms: u64,
}

/// The difficulty factor in thousandths for a given elapsed time: a linear
/// ramp from the initial factor, clamped at the ceiling.
pub open spec fn difficulty_factor_milli(elapsed_ms: int) -> int {
    let ramp = INITIAL_DIFFICULTY_FACTOR_MILLI as int + elapsed_ms / 100;
    if ramp > MAX_DIFFICULTY_FACTOR_MILLI as int {
        MAX_DIFFICULTY_FACTOR_MILLI as int
    } else {
        ramp
    }
}

/// The difficulty factor never decreases as time passes and never exceeds
/// its ceiling.
pub proof fn lemma_difficulty_monotonic(elapsed1: int, elapsed2: int)
    requires
        0 <= elapsed1 <= elapsed2,
    ensures
        difficulty_factor_milli(elapsed1) <= difficulty_factor_milli(elapsed2),
        INITIAL_DIFFICULTY_FACTOR_MILLI as int <= difficulty_factor_milli(elapsed1)
            <= MAX_DIFFICULTY_FACTOR_MILLI as int,
{
    lemma_div_is_ordered(elapsed1, elapsed2, 100);
    lemma_div_is_ordered(0, elapsed1, 100);
}

impl Difficulty {
    pub open spec fn factor_milli_spec(self) -> int {
        difficulty_factor_milli(self.time_elapsed_ms as int)
    }

    /// The current difficulty factor in thousandths, between the initial
    /// factor and the ceiling.
    pub fn difficulty_factor(&self) -> (f: u64)
        ensures
            f as int == self.factor_milli_spec(),
            INITIAL_DIFFICULTY_FACTOR_MILLI <= f <= MAX_DIFFICULTY_FACTOR_MILLI,
    {
        proof {
            lemma_div_is_ordered(0, self.time_elapsed_ms as int, 100);
        }
        let ramp = INITIAL_DIFFICULTY_FACTOR_MILLI + self.time_elapsed_ms / 100;
        if ramp > MAX_DIFFICULTY_FACTOR_MILLI {
            MAX_DIFFICULTY_FACTOR_MILLI
        } else {
            ramp
        }
    }

    /// How far the ramp has gone, in thousandths: zero at the start, up to
    /// a thousand at the ceiling.
    pub fn difficulty_factor_0_1(&self) -> (f: u64)
        ensures
            f as int == self.factor_milli_spec() - INITIAL_DIFFICULTY_FACTOR_MILLI as int,
    {
        self.difficulty_factor() - INITIAL_DIFFICULTY_FACTOR_MILLI
    }
}

/// Difficulty accrual: elapsed time grows by the tick's delta while the
/// arena is live, and freezes in the terminal mode.
pub fn update_difficulty(difficulty: &mut Difficulty, current_mode: ArenaMode, dt_ms: u64)
    ensures
        current_mode == ArenaMode::GameOver ==> *final(difficulty) == *old(difficulty),
        current_mode != ArenaMode::GameOver ==> final(difficulty).time_elapsed_ms as int == (
        if old(difficulty).time_elapsed_ms + dt_ms <= u64::MAX {
            old(difficulty).time_elapsed_ms as int + dt_ms as int
        } else {
            u64::MAX as int
        }),
{
    if current_mode == ArenaMode::GameOver {
        return ;
    }
    if dt_ms <= u64::MAX - difficulty.time_elapsed_ms {
        difficulty.time_elapsed_ms = difficulty.time_elapsed_ms + dt_ms;
    } else {
        difficulty.time_elapsed_ms = u64::MAX;
    }
}

/// The kinds of scored action.
#[derive(Clone, Copy, Debug, PartialEq, Eq, Structural)]
pub enum ScoreActionType {
    Bad,
    Good,
    Perfect,
}

/// Base value of an action kind before difficulty scaling.
pub open spec fn action_base(kind: ScoreActionType) -> int {
    match kind {
        ScoreActionType::Bad => DEFAULT_BAD_ACTION_SCORE as int,
        ScoreActionType::Good => DEFAULT_GOOD_ACTION_SCORE as int,
        ScoreActionType::Perfect => DEFAULT_PERFECT_ACTION_SCORE as int,
    }
}

impl ScoreActionType {
    /// The base score value of the action and its on-screen label. Rewards
    /// are positive, penalties negative.
    pub fn to_properties(&self) -> (r: (i32, &'static str))
        ensures
            r.0 as int == action_base(*self),
            r.1@ == (match *self {
                ScoreActionType::Bad => "Miss"@,
                ScoreActionType::Good => "Good"@,
                ScoreActionType::Perfect => "Perfect"@,
            }),
    {
        match self {
            ScoreActionType::Bad => (DEFAULT_BAD_ACTION_SCORE, "Miss"),
            ScoreActionType::Good => (DEFAULT_GOOD_ACTION_SCORE, "Good"),
            ScoreActionType::Perfect => (DEFAULT_PERFECT_ACTION_SCORE, "Perfect"),
        }
    }
}

/// A scored action and where in the arena it happened, as the slicing and
/// collision rules emit it.
#[derive(Clone, Copy, Debug, PartialEq, Eq, Structural)]
pub struct ScoreAction {
    pub action: ScoreActionType,
    pub pos: Vec3i,
}

/// Notification that the score changed; the game-over rule runs on it.
#[derive(Clone, Copy, Debug, PartialEq, Eq, Structural)]
pub struct ScoreUpdate;

/// Marker for the score readout.
#[derive(Clone, Copy, Debug, PartialEq, Eq, Structural)]
pub struct ScoreText;

/// Marker for the high-score readout.
#[derive(Clone, Copy, Debug, PartialEq, Eq, Structural)]
pub struct HighscoreText;

/// Marker for the elapsed-time readout.
#[derive(Clone, Copy, Debug, PartialEq, Eq, Structural)]
pub struct DifficultyTimerText;

/// `v` clamped into `i32` range.
pub open spec fn clamp_i32(v: int) -> int {
    if v > i32::MAX as int {
        i32::MAX as int
    } else if v < i32::MIN as int {
        i32::MIN as int
    } else {
        v
    }
}

/// `num / den` rounded to the nearest integer, halves away from zero;
/// `den` must be positive.
pub open spec fn div_round_nearest(num: int, den: int) -> int {
    if num >= 0 {
        (2 * num + den) / (2 * den)
    } else {
        -((2 * (-num) + den) / (2 * den))
    }
}

/// An action's contribution at a given difficulty, in points. A reward is
/// divided by the factor (rewards diminish as difficulty rises), a penalty
/// multiplied by it (penalties worsen); both round to the nearest point,
/// halves away from zero.
pub open spec fn scaled_action_value(base: int, factor_milli: int) -> int {
    if base > 0 {
        div_round_nearest(base * 1000, factor_milli)
    } else {
        div_round_nearest(base * factor_milli, 1000)
    }
}

impl Score {
    /// Applies one scored action at the given difficulty: the current score
    /// moves by the scaled value, rounded to the nearest point (saturating
    /// at the `i32` bounds), and the high score rises to the new current
    /// score when that is positive and higher. Returns the applied value.
    pub fn apply_action(&mut self, kind: ScoreActionType, difficulty: &Difficulty) -> (delta:
        i32)
        ensures
            delta as int == scaled_action_value(action_base(kind), difficulty.factor_milli_spec()),
            final(self).current as int == clamp_i32(old(self).current as int + delta as int),
            final(self).highscore as int == (if final(self).current > 0 && final(self).current
                as int > old(self).highscore as int {
                final(self).current as int
            } else {
                old(self).highscore as int
            }),
    {
        let factor = difficulty.difficulty_factor();
        let delta: i32 = match kind {
            ScoreActionType::Bad => {
                let num = 2 * (10 * factor) + 1000;
                proof {
                    lemma_div_nonincreasing(num as int, 2000);
                }
                -((num / 2000) as i32)
            },
            ScoreActionType::Good => {
                let num = 20000 + factor;
                proof {
                    lemma_div_nonincreasing(num as int, 2 * factor as int);
                }
                (num / (2 * factor)) as i32
            },
            ScoreActionType::Perfect => {
                let num = 30000 + factor;
                proof {
                    lemma_div_nonincreasing(num as int, 2 * factor as int);
                }
                (num / (2 * factor)) as i32
            },
        };
        let sum = self.current as i64 + delta as i64;
        self.current = if sum > i32::MAX as i64 {
            i32::MAX
        } else if sum < i32::MIN as i64 {
            i32::MIN
        } else {
            sum as i32
        };
        if self.current > 0 && (self.current as u32) > self.highscore {
            self.highscore = self.current as u32;
        }
        delta
    }

    /// The game is over exactly when the current score is negative.
    pub fn is_game_over(&self) -> (r: bool)
        ensures
            r == (self.current < 0),
    {
        self.current < 0
    }
}

/// The scoring rule for a slice notification: slicing a dummy is a good
/// action at the slice's position; slicing anything else scores nothing.
pub fn update_score(target_is_dummy: bool, pos: Vec3i) -> (r: Option<ScoreAction>)
    ensures
        r == (if target_is_dummy {
            Some(ScoreAction { action: ScoreActionType::Good, pos })
        } else {
            Option::<ScoreAction>::None
        }),
{
    if target_is_dummy {
        Some(ScoreAction { action: ScoreActionType::Good, pos })
    } else {
        None
    }
}

/// The score and difficulty a fresh arena starts with: everything at zero.
pub fn setup_score() -> (r: (Score, Difficulty))
    ensures
        r.0.current == 0,
        r.0.highscore == 0,
        r.1.time_elapsed_ms == 0,
{
    (Score { highscore: 0, current: 0 }, Difficulty { time_elapsed_ms: 0 })
}

} // verus!
