//! A turn-based simulation of the game of tag on a bounded fixed-point field.

pub mod action;
pub mod agents;
pub mod chance;
pub mod environment;
pub mod geometry;
pub mod parameters;
pub mod ranking;
pub mod simulation;
pub mod table;
pub mod tag_environment;
