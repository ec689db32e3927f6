//! The agents and their decision policies.

pub mod agent;
pub mod basic_directional;
