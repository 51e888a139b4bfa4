//! Recorded game files.
pub mod version;
pub mod ids;
pub mod actions;
pub mod game_options;
pub mod string_table;
pub mod production;
pub mod ai;
pub mod map;
pub mod recorded_game;

pub use ids::{ObjectID, PlayerID};
use vstd::prelude::*;

verus! {

/// The difficulty of the computer players, as the recorded game reader names it.
#[derive(Debug, Clone, Copy, PartialEq, Eq, PartialOrd, Ord, Hash)]
pub enum Difficulty {
    Easiest,
    Easy,
    Standard,
    Moderate,
    Hard,
    Hardest,
    /// Age of Empires 2: Definitive Edition only.
    Extreme,
}

impl Difficulty {
    /// The number that the game stores for this difficulty (`Easy` has none).
    pub open spec fn code(self) -> Option<u32> {
        match self {
            Difficulty::Hardest => Some(0),
            Difficulty::Hard => Some(1),
            Difficulty::Moderate => Some(2),
            Difficulty::Standard => Some(3),
            Difficulty::Easiest => Some(4),
            Difficulty::Extreme => Some(5),
            Difficulty::Easy => None,
        }
    }

    /// The difficulty stored as `val`, which must be a known one (0 to 5).
    pub fn from(val: u32) -> (r: Self)
        requires
            val <= 5,
        ensures
            r.code() == Some(val),
    {
        match val {
            0 => Difficulty::Hardest,
            1 => Difficulty::Hard,
            2 => Difficulty::Moderate,
            3 => Difficulty::Standard,
            4 => Difficulty::Easiest,
            _ => Difficulty::Extreme,
        }
    }
}

impl Default for Difficulty {
    fn default() -> (r: Self)
        ensures
            r == Difficulty::Standard,
    {
        Difficulty::Standard
    }
}

} // verus!
