//! The command line: global options and subcommands.

use vstd::prelude::*;
use std::path::PathBuf;

verus! {

/// A filesystem path, carried through unchanged.
#[verifier::external_type_specification]
#[verifier::external_body]
pub struct ExPathBuf(PathBuf);

/// The parsed command line.
pub struct Cli {
    /// Output format (toon = compact token-efficient, json = full structured).
    pub format: OutputFormat,
    /// Path to git repository.
    pub repo: PathBuf,
    pub command: Commands,
}

/// The subcommands.
pub enum Commands {
    /// List unstaged hunks (or staged hunks with `staged`).
    Diff { file: Option<PathBuf>, staged: bool },
    /// Stage selected hunks or lines.
    Stage { hunk_ids: Option<Vec<String>>, from_stdin: bool },
    /// Discard selected hunks (unstaged by default, or staged with `staged`).
    Checkout { hunk_ids: Option<Vec<String>>, from_stdin: bool, staged: bool },
    /// Show staging status summary.
    Status,
    /// Enter stdin/stdout JSON-lines protocol mode.
    Protocol,
}

/// Output format.
#[derive(Clone, Copy, Debug, PartialEq, Eq, Structural)]
pub enum OutputFormat {
    Toon,
    Json,
}

} // verus!
