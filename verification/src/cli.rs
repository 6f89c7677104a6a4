//! The user's selection inputs, as one plain record: which configuration
//! file to load, which tools to ignore, which ecosystems to run or to skip,
//! and whether to log each step.  Argument parsing itself is left to the
//! surrounding program; the library only consumes the resolved values.

use vstd::prelude::*;

verus! {

/// Resolved command-line selections for one run.
pub struct StopNaggingArgs {
    /// Optional path to a custom YAML configuration file; when absent the
    /// built-in default configuration is used.
    pub yaml: Option<String>,
    /// Tool names to ignore, matched case-insensitively across every
    /// ecosystem.
    pub ignore_tools: Vec<String>,
    /// Ecosystems to run; empty means all.
    pub ecosystems: Vec<String>,
    /// Ecosystems to skip entirely; precedence over `ecosystems`.
    pub ignore_ecosystems: Vec<String>,
    /// Whether per-step diagnostic lines are emitted.
    pub verbose: bool,
}

} // verus!
