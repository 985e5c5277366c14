//! A rule engine for the single-player card game Onirim, with a one-ply
//! evaluation-based player.

pub mod action;
pub mod card;
pub mod content;
pub mod count;
pub mod data;
pub mod evaluator;
pub mod heuristic;
pub mod play;
pub mod role;
pub mod runner;
pub mod statistic;
pub mod rule;
