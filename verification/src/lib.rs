//! Grading rules for a line-oriented Connect Four program: a reference board,
//! the checks made on each batch of output, and the turn-taking protocol of
//! one scripted game.

pub mod board;
pub mod tally;
pub mod text;
pub mod matcher;
pub mod oracle;
pub mod runner;
pub mod run_laws;
pub mod grade;
pub mod catalog;
