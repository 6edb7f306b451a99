//! The arena's mode: which minigame is running, or the terminal game-over
//! state.

use vstd::prelude::*;
use crate::rng::random_below;

verus! {

/// Key of the icon shown for a weapon mode.
#[derive(Clone, Copy, Debug, PartialEq, Eq, Hash, Structural)]
pub enum ImageKey {
    Sword,
    Shield,
}

/// The arena's current mode. `Inactive` is the state before the first
/// cycle starts; `GameOver` is terminal: no cycle leaves it.
#[derive(Clone, Copy, Debug, PartialEq, Eq, Hash, Structural)]
pub enum ArenaMode {
    Inactive,
    Sword,
    Shield,
    GameOver,
}

impl Default for ArenaMode {
    fn default() -> (r: Self)
        ensures
            r == ArenaMode::Inactive,
    {
        ArenaMode::Inactive
    }
}

impl ArenaMode {
    /// The icon for this mode; modes without an icon of their own show the
    /// sword.
    pub fn to_image_key(&self) -> (r: ImageKey)
        ensures
            r == (match *self {
                ArenaMode::Shield => ImageKey::Shield,
                _ => ImageKey::Sword,
            }),
    {
        match self {
            ArenaMode::Sword => ImageKey::Sword,
            ArenaMode::Shield => ImageKey::Shield,
            ArenaMode::Inactive => ImageKey::Sword,
            ArenaMode::GameOver => ImageKey::Sword,
        }
    }

    /// One of the two playable modes holds.
    pub open spec fn is_playable(self) -> bool {
        self == ArenaMode::Sword || self == ArenaMode::Shield
    }
}

/// Draws one of the two playable modes at random, as the mode cycle does
/// when it starts.
pub fn random_arena_mode() -> (r: ArenaMode)
    ensures
        r.is_playable(),
{
    if random_below(2) == 0 {
        ArenaMode::Sword
    } else {
        ArenaMode::Shield
    }
}

} // verus!
