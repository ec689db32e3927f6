//! The configuration of a simulation.

use vstd::prelude::*;

verus! {

/// The decision policy that the agents follow.
#[derive(Debug, Clone, Copy, PartialEq, Eq, Structural)]
pub enum AgentType {
    /// Tag whoever is found first within reach, else move at random.
    Default,
    /// Chase the nearest eligible agent, or run from the nearest pursuer.
    BasicDirectional,
}

/// The configuration of one run. Lengths are in grid steps.
#[derive(Debug, Clone, Copy, PartialEq, Eq, Structural)]
pub struct TagParams {
    /// The longest move of an agent in one tick.
    pub speed: u32,
    /// The distance within which one agent may tag another.
    pub proximity: u32,
    /// The width of the field.
    pub width: i32,
    /// The height of the field.
    pub height: i32,
    /// The number of agents.
    pub num_players: usize,
    /// How many of them start out as "it".
    pub num_it: usize,
    /// The decision policy of the agents.
    pub agent_type: AgentType,
    /// Whether the rendered agents are numbered.
    pub numbered: bool,
}

/// Why a configuration is turned down.
#[derive(Debug, Clone, Copy, PartialEq, Eq, Structural)]
pub enum ConfigError {
    /// The speed is zero.
    NoSpeed,
    /// The width is not positive.
    NoWidth,
    /// The height is not positive.
    NoHeight,
    /// There are no agents.
    NoPlayers,
    /// No agent starts out as "it".
    NoIt,
    /// More agents start out as "it" than there are agents.
    TooManyIt,
}

impl TagParams {
    /// The first fault of a configuration, if it has one.
    pub open spec fn spec_validate(&self) -> Result<(), ConfigError> {
        if self.speed == 0 {
            Err(ConfigError::NoSpeed)
        } else if self.width <= 0 {
            Err(ConfigError::NoWidth)
        } else if self.height <= 0 {
            Err(ConfigError::NoHeight)
        } else if self.num_players == 0 {
            Err(ConfigError::NoPlayers)
        } else if self.num_it == 0 {
            Err(ConfigError::NoIt)
        } else if self.num_it > self.num_players {
            Err(ConfigError::TooManyIt)
        } else {
            Ok(())
        }
    }

    /// A configuration that a simulation can start from.
    pub open spec fn valid(&self) -> bool {
        &&& self.speed > 0
        &&& self.width > 0
        &&& self.height > 0
        &&& 1 <= self.num_it <= self.num_players
    }

    /// Checks a configuration before anything is built from it.
    pub fn validate(&self) -> (r: Result<(), ConfigError>)
        ensures
            r == self.spec_validate(),
            r is Ok <==> self.valid(),
    {
        if self.speed == 0 {
            Err(ConfigError::NoSpeed)
        } else if self.width <= 0 {
            Err(ConfigError::NoWidth)
        } else if self.height <= 0 {
            Err(ConfigError::NoHeight)
        } else if self.num_players == 0 {
            Err(ConfigError::NoPlayers)
        } else if self.num_it == 0 {
            Err(ConfigError::NoIt)
        } else if self.num_it > self.num_players {
            Err(ConfigError::TooManyIt)
        } else {
            Ok(())
        }
    }
}

/// The configuration used where none is given: fifty agents, one of them
/// "it", on a field of a thousand by six hundred units.
pub fn default_params() -> (p: TagParams)
    ensures
        p == (TagParams {
            speed: 5000,
            proximity: 15000,
            width: 1_000_000,
            height: 600_000,
            num_players: 50,
            num_it: 1,
            agent_type: AgentType::Default,
            numbered: false,
        }),
        p.valid(),
{
    TagParams {
        speed: 5000,
        proximity: 15000,
        width: 1_000_000,
        height: 600_000,
        num_players: 50,
        num_it: 1,
        agent_type: AgentType::Default,
        numbered: false,
    }
}

} // verus!
