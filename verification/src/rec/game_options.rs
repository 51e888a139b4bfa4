//! Options of a game, as stored in recorded games.
//!
//! Each option with stored numbers has a `code` (the number the game stores) and a
//! `from` that gives the option of a known number; other numbers are not options.
use vstd::prelude::*;

verus! {

/// The amount of resources that players start with.
#[derive(Debug, Clone, Copy, PartialEq, Eq, PartialOrd, Ord, Hash)]
pub enum StartingResources {
    NoResources,
    Standard,
    Low,
    Medium,
    High,
    UltraHigh,
    Infinite,
    Random,
}

impl StartingResources {
    /// The number that the game stores for this option.
    pub open spec fn code(self) -> int {
        match self {
            StartingResources::NoResources => -1,
            StartingResources::Standard => 0,
            StartingResources::Low => 1,
            StartingResources::Medium => 2,
            StartingResources::High => 3,
            StartingResources::UltraHigh => 4,
            StartingResources::Infinite => 5,
            StartingResources::Random => 6,
        }
    }

    /// The option stored as `val`, which must be a known one (-1 to 6).
    pub fn from(val: i32) -> (r: Self)
        requires
            -1 <= val <= 6,
        ensures
            r.code() == val,
    {
        match val {
            -1 => StartingResources::NoResources,
            0 => StartingResources::Standard,
            1 => StartingResources::Low,
            2 => StartingResources::Medium,
            3 => StartingResources::High,
            4 => StartingResources::UltraHigh,
            5 => StartingResources::Infinite,
            _ => StartingResources::Random,
        }
    }
}

impl Default for StartingResources {
    fn default() -> (r: Self)
        ensures
            r == StartingResources::Standard,
    {
        StartingResources::Standard
    }
}

/// The condition for winning a game.
#[derive(Debug, Clone, Copy, PartialEq, Eq, PartialOrd, Ord, Hash)]
pub enum VictoryType {
    Standard,
    Conquest,
    Exploration,
    Ruins,
    Artifacts,
    Discoveries,
    Gold,
    TimeLimit,
    Score,
    Standard2,
    Regicide,
    LastManStanding,
}

impl VictoryType {
    /// The number that the game stores for this option.
    pub open spec fn code(self) -> int {
        match self {
            VictoryType::Standard => 0,
            VictoryType::Conquest => 1,
            VictoryType::Exploration => 2,
            VictoryType::Ruins => 3,
            VictoryType::Artifacts => 4,
            VictoryType::Discoveries => 5,
            VictoryType::Gold => 6,
            VictoryType::TimeLimit => 7,
            VictoryType::Score => 8,
            VictoryType::Standard2 => 9,
            VictoryType::Regicide => 10,
            VictoryType::LastManStanding => 11,
        }
    }

    /// The option stored as `val`, which must be a known one (0 to 11).
    pub fn from(val: u32) -> (r: Self)
        requires
            val <= 11,
        ensures
            r.code() == val,
    {
        match val {
            0 => VictoryType::Standard,
            1 => VictoryType::Conquest,
            2 => VictoryType::Exploration,
            3 => VictoryType::Ruins,
            4 => VictoryType::Artifacts,
            5 => VictoryType::Discoveries,
            6 => VictoryType::Gold,
            7 => VictoryType::TimeLimit,
            8 => VictoryType::Score,
            9 => VictoryType::Standard2,
            10 => VictoryType::Regicide,
            _ => VictoryType::LastManStanding,
        }
    }
}

impl Default for VictoryType {
    fn default() -> (r: Self)
        ensures
            r == VictoryType::Standard,
    {
        VictoryType::Standard
    }
}

/// The difficulty of the computer players.
#[derive(Debug, Clone, Copy, PartialEq, Eq, PartialOrd, Ord, Hash)]
pub enum Difficulty {
    Easy,
    Hardest,
    Hard,
    Moderate,
    Standard,
    Easiest,
    /// Age of Empires 2: Definitive Edition only.
    Extreme,
}

impl Difficulty {
    /// The number that the game stores for this option.
    pub open spec fn code(self) -> int {
        match self {
            Difficulty::Easiest => 4,
            Difficulty::Easy => -1,
            Difficulty::Extreme => 5,
            Difficulty::Hard => 1,
            Difficulty::Hardest => 0,
            Difficulty::Moderate => 2,
            Difficulty::Standard => 3,
        }
    }

    /// The option stored as `val`, which must be a known one (0 to 5).
    pub fn from(val: u32) -> (r: Self)
        requires
            val <= 5,
        ensures
            r.code() == val,
    {
        match val {
            0 => Difficulty::Hardest,
            1 => Difficulty::Hard,
            2 => Difficulty::Moderate,
            3 => Difficulty::Standard,
            4 => Difficulty::Easiest,
            _ => Difficulty::Extreme,
        }
    }
}

impl Default for Difficulty {
    fn default() -> (r: Self)
        ensures
            r == Difficulty::Standard,
    {
        Difficulty::Standard
    }
}

/// The size of the map.
#[derive(Debug, Clone, Copy, PartialEq, Eq, PartialOrd, Ord, Hash)]
pub enum MapSize {
    Tiny,
    Small,
    Medium,
    Normal,
    Large,
    Giant,
    Ludicrous,
}

/// What players see of the map at the start.
#[derive(Debug, Clone, Copy, PartialEq, Eq, PartialOrd, Ord, Hash)]
pub enum Visibility {
    Normal,
    Explored,
    AllVisible,
}

/// The kind of game.
#[derive(Debug, Clone, Copy, PartialEq, Eq, PartialOrd, Ord, Hash)]
pub enum GameMode {
    RM,
    Regicide,
    DM,
    Scenario,
    Campaign,
    KingOfTheHill,
    WonderRace,
    DefendTheWonder,
    TurboRandom,
    CaptureTheRelic,
    SuddenDeath,
    BattleRoyale,
    EmpireWars,
}

impl GameMode {
    /// The number that the game stores for this option.
    pub open spec fn code(self) -> int {
        match self {
            GameMode::RM => 0,
            GameMode::Regicide => 1,
            GameMode::DM => 2,
            GameMode::Scenario => 3,
            GameMode::Campaign => 4,
            GameMode::KingOfTheHill => 5,
            GameMode::WonderRace => 6,
            GameMode::DefendTheWonder => 7,
            GameMode::TurboRandom => 8,
            GameMode::CaptureTheRelic => 10,
            GameMode::SuddenDeath => 11,
            GameMode::BattleRoyale => 12,
            GameMode::EmpireWars => 13,
        }
    }

    /// The option stored as `n`, which must be a known one (0 to 13, but not 9).
    pub fn from(n: u32) -> (r: Self)
        requires
            n <= 13,
            n != 9,
        ensures
            r.code() == n,
    {
        match n {
            0 => GameMode::RM,
            1 => GameMode::Regicide,
            2 => GameMode::DM,
            3 => GameMode::Scenario,
            4 => GameMode::Campaign,
            5 => GameMode::KingOfTheHill,
            6 => GameMode::WonderRace,
            7 => GameMode::DefendTheWonder,
            8 => GameMode::TurboRandom,
            10 => GameMode::CaptureTheRelic,
            11 => GameMode::SuddenDeath,
            12 => GameMode::BattleRoyale,
            _ => GameMode::EmpireWars,
        }
    }
}

impl Default for GameMode {
    fn default() -> (r: Self)
        ensures
            r == GameMode::RM,
    {
        GameMode::RM
    }
}

/// The speed of the game.
#[derive(Debug, Clone, Copy, PartialEq, Eq, PartialOrd, Ord, Hash)]
pub enum GameSpeed {
    Slow,
    Casual,
    Normal,
    Fast,
}

} // verus!
