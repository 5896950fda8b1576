//! Streaming disclosure-control checks for survey datasets.
//!
//! A format reader emits one metadata event, one event per variable
//! definition, one per value-label entry and one per cell. The engine folds
//! these into per-variable frequency tables and a report of pass/fail
//! tallies with locators for the offending variables.

pub mod check;
pub mod config;
pub mod context;
pub mod engine;
pub mod error;
pub mod frequency;
pub mod labels;
pub mod missing;
pub mod render;
pub mod report;
pub mod text;
pub mod value;
pub mod variable;
