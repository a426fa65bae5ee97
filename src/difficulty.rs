use vstd::prelude::*;

verus! {

/// The difficulty settings a player can pick before a run.
#[derive(Clone, Copy, Debug, PartialEq, Eq, Structural)]
pub enum DifficultyLevel {
    Easy,
    Normal,
    Hard,
    Hardcore,
}

/// The settings that one difficulty brings: the swarm's step interval, the
/// player's fire-rate interval (both in milliseconds) and the number of shots
/// that may be in flight at once.
#[derive(Clone, Copy, Debug)]
pub struct Difficulty {
    pub invader_speed: u64,
    pub player_fire_rate: u64,
    pub max_shots: Option<usize>,
}

/// The settings of each level, as a value.
pub open spec fn profile(level: DifficultyLevel) -> Difficulty {
    match level {
        DifficultyLevel::Easy => Difficulty {
            invader_speed: 800,
            player_fire_rate: 400,
            max_shots: Some(3),
        },
        DifficultyLevel::Normal => Difficulty {
            invader_speed: 600,
            player_fire_rate: 500,
            max_shots: Some(2),
        },
        DifficultyLevel::Hard => Difficulty {
            invader_speed: 400,
            player_fire_rate: 600,
            max_shots: Some(2),
        },
        DifficultyLevel::Hardcore => Difficulty {
            invader_speed: 100,
            player_fire_rate: 200000,
            max_shots: Some(1),
        },
    }
}

impl Difficulty {
    pub fn new(level: DifficultyLevel) -> (r: Self)
        ensures
            r == profile(level),
    {
        match level {
            // slow swarm, quick fire, room for three shots
            DifficultyLevel::Easy => Self {
                invader_speed: 800,
                player_fire_rate: 400,
                max_shots: Some(3),
            },
            DifficultyLevel::Normal => Self {
                invader_speed: 600,
                player_fire_rate: 500,
                max_shots: Some(2),
            },
            DifficultyLevel::Hard => Self {
                invader_speed: 400,
                player_fire_rate: 600,
                max_shots: Some(2),
            },
            // a very fast swarm and a single, slow shot
            DifficultyLevel::Hardcore => Self {
                invader_speed: 100,
                player_fire_rate: 200000,
                max_shots: Some(1),
            },
        }
    }
}

impl Default for Difficulty {
    fn default() -> (r: Self)
        ensures
            r == profile(DifficultyLevel::Normal),
    {
        Self::new(DifficultyLevel::Normal)
    }
}

} // verus!
