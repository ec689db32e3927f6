//! What a simulation environment offers, whatever its actions and agents are.

use crate::parameters::{ConfigError, TagParams};
use rand::rngs::StdRng;
use vstd::prelude::*;

verus! {

/// An environment that is set up from a configuration, takes agents in,
/// and changes by the actions of its agents.
pub trait Environment<ACTION, AGENT>: Sized {
    /// Whether the environment is consistent in itself.
    spec fn ready(&self) -> bool;

    /// Whether `action` of the agent `agent` refers to agents that exist.
    spec fn accepts(&self, agent: usize, action: ACTION) -> bool;

    /// Whether each action of the list, taken as that of the agent whose id
    /// is its index, refers to agents that exist.
    spec fn accepts_all(&self, actions: Seq<ACTION>) -> bool;

    /// Sets the environment up anew. A configuration with a fault is turned down.
    fn reset(&mut self, params: TagParams, rng: &mut StdRng) -> (r: Result<(), ConfigError>)
        ensures
            r == params.spec_validate(),
            r is Ok ==> final(self).ready(),
    ;

    /// Takes an agent in, in place of the one with the same id.
    fn add_agent(&mut self, agent: AGENT)
        requires
            old(self).ready(),
        ensures
            final(self).ready(),
    ;

    /// Applies one action of the agent `agent`.
    fn step(&mut self, agent: usize, action: &ACTION)
        requires
            old(self).ready(),
            old(self).accepts(agent, *action),
        ensures
            final(self).ready(),
    ;

    /// Applies the actions in ascending order of the agents' ids.
    fn step_all(&mut self, actions: Vec<ACTION>)
        requires
            old(self).ready(),
            old(self).accepts_all(actions@),
        ensures
            final(self).ready(),
    ;
}

} // verus!
