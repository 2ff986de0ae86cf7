//! Toad's core: the records shared by the tool, where it keeps its state,
//! and how it finds the workspace, with contracts proved by Verus.

pub mod order;
pub mod paths;
pub mod keyed;
pub mod tags;
pub mod error;
pub mod time;
pub mod models;
pub mod config;
pub mod registry;
pub mod reports;
pub mod strategy;
pub mod workflow;
pub mod utils;
pub mod ui;
pub mod workspace;
pub mod fingerprint;
pub mod discover;
