//! Declarative suppression of interactive prompts, update banners and
//! telemetry nags of third-party command-line tools.
//!
//! A configuration lists ecosystems of tools; each tool names an executable
//! to probe for, environment variables to set while its commands run, and
//! shell commands to execute.  The verified core of this crate is the
//! execution engine: it walks the configuration in declared order, decides
//! which ecosystems and tools apply, and guarantees that every environment
//! mutation is paired with a restoration at the end of the run.  The engine
//! performs no I/O itself: it emits one action at a time (probe, apply,
//! run, restore) and is handed the outcome as an event, so that every
//! decision it makes is proved, whatever the outside world answers.

pub mod cli;
pub mod config;
pub mod filter;
pub mod laws;
pub mod platform;
pub mod restore;
pub mod runner;
pub mod yaml_config;
