//! The weapon-mode cycle: a repeating timer alternates the arena between the
//! two minigames, and the game-over rule freezes it for good.

use vstd::prelude::*;
use crate::arena::{ArenaMode, random_arena_mode};
use crate::score::Score;

verus! {

/// Interval between weapon switches, in milliseconds.
pub const NEXT_WEAPON_CYCLE_INTERVAL: u64 = 13000;

/// Marker for the countdown readout next to the weapon icon.
#[derive(Clone, Copy, Debug, PartialEq, Eq, Structural)]
pub struct NextCycleTimerText;

/// Marker for the next-weapon icon.
#[derive(Clone, Copy, Debug, PartialEq, Eq, Structural)]
pub struct NextCycleImage;

/// Event: frame the camera for sword mode.
#[derive(Clone, Copy, Debug, PartialEq, Eq, Structural)]
pub struct SetSwordModeCamera;

/// Event: frame the camera for shield mode.
#[derive(Clone, Copy, Debug, PartialEq, Eq, Structural)]
pub struct SetShieldModeCamera;

/// The mode cycle: the running mode, the mode the next switch brings, and
/// the repeating countdown to that switch.
#[derive(Clone, Copy, Debug, PartialEq, Eq, Structural)]
pub struct Cycle {
    pub current_mode: ArenaMode,
    pub next_mode: ArenaMode,
    pub timer_remaining_ms: u64,
    pub timer_interval_ms: u64,
    pub timer_paused: bool,
}

/// Draws a playable mode different from `mode`. With two playable modes the
/// redraw-until-different rule amounts to: take the draw unless it equals
/// `mode`, then take the other playable mode.
pub fn get_random_different_mode(mode: &ArenaMode) -> (r: ArenaMode)
    ensures
        r.is_playable(),
        r != *mode,
{
    let candidate = random_arena_mode();
    if candidate == *mode {
        if candidate == ArenaMode::Sword {
            ArenaMode::Shield
        } else {
            ArenaMode::Sword
        }
    } else {
        candidate
    }
}

/// The cycle a fresh arena starts with: a random playable mode, a different
/// playable mode on deck, and a full countdown.
pub fn setup_cycle() -> (c: Cycle)
    ensures
        c.current_mode.is_playable(),
        c.next_mode.is_playable(),
        c.next_mode != c.current_mode,
        c.timer_remaining_ms == NEXT_WEAPON_CYCLE_INTERVAL,
        c.timer_interval_ms == NEXT_WEAPON_CYCLE_INTERVAL,
        !c.timer_paused,
{
    let current = random_arena_mode();
    let next = get_random_different_mode(&current);
    Cycle {
        current_mode: current,
        next_mode: next,
        timer_remaining_ms: NEXT_WEAPON_CYCLE_INTERVAL,
        timer_interval_ms: NEXT_WEAPON_CYCLE_INTERVAL,
        timer_paused: false,
    }
}

impl Cycle {
    /// One tick of the cycle timer. While the timer runs, the countdown
    /// falls by the tick's delta; when it runs out, the switch happens: the
    /// queued mode becomes current, a different playable mode is drawn for
    /// the next switch, and the countdown restarts at the full interval.
    /// A paused cycle (the terminal state) never changes.
    pub fn update_cycle(&mut self, dt_ms: u64)
        ensures
            old(self).timer_paused ==> *final(self) == *old(self),
            !old(self).timer_paused && dt_ms < old(self).timer_remaining_ms ==> *final(self) == (
            Cycle {
                timer_remaining_ms: (old(self).timer_remaining_ms - dt_ms) as u64,
                ..*old(self)
            }),
            !old(self).timer_paused && dt_ms >= old(self).timer_remaining_ms ==> {
                &&& final(self).current_mode == old(self).next_mode
                &&& final(self).next_mode.is_playable()
                &&& final(self).next_mode != old(self).next_mode
                &&& final(self).timer_remaining_ms == old(self).timer_interval_ms
                &&& final(self).timer_interval_ms == old(self).timer_interval_ms
                &&& final(self).timer_paused == old(self).timer_paused
            },
    {
        if self.timer_paused {
            return ;
        }
        if dt_ms < self.timer_remaining_ms {
            self.timer_remaining_ms = self.timer_remaining_ms - dt_ms;
        } else {
            self.current_mode = self.next_mode;
            self.next_mode = get_random_different_mode(&self.current_mode);
            self.timer_remaining_ms = self.timer_interval_ms;
        }
    }
}

/// The game-over rule, run whenever the score changed: a negative current
/// score puts the arena in the terminal mode and freezes the cycle timer;
/// otherwise nothing changes. Returns whether the game ended.
pub fn detect_game_over(score: &Score, cycle: &mut Cycle) -> (game_over: bool)
    ensures
        game_over == (score.current < 0),
        game_over ==> *final(cycle) == (Cycle {
            current_mode: ArenaMode::GameOver,
            timer_paused: true,
            ..*old(cycle)
        }),
        !game_over ==> *final(cycle) == *old(cycle),
{
    if score.current < 0 {
        cycle.current_mode = ArenaMode::GameOver;
        cycle.timer_paused = true;
        true
    } else {
        false
    }
}

} // verus!
