//! Verified core of gitsift, a hunk-level staging tool for code agents.

pub mod checkout;
pub mod cli;
pub mod diff;
pub mod git;
pub mod models;
pub mod patch;
pub mod plan;
pub mod protocol;
pub mod stage;
pub mod text;
pub mod toon;
