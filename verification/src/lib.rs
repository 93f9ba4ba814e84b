//! Engram: a deterministic reasoning kernel over a knowledge graph.
//!
//! The library holds the graph's data model, the keyword tokeniser, the
//! activation seeding rules, candidate selection and ranking, the confidence
//! classification, and the listings behind the sub-commands.

pub mod model;
pub mod text;
pub mod knowledge;
pub mod engine;
pub mod seeding;
pub mod candidates;
pub mod ranking;
pub mod format;
pub mod report;
pub mod cli;

