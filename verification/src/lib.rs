//! Post-fuzzing crash triage engine.
//!
//! The library holds the verified core of a crash-triage tool: marker-based
//! framing of debugger output, debugger command-line composition, outcome
//! classification, shared aggregate statistics, report naming, and input
//! classification. Process spawning, JSON decoding and terminal handling live
//! in the surrounding application, which calls into this crate with plain
//! values.

pub mod cmdline;
pub mod driver;
pub mod gdb_triage;
pub mod inputs;
pub mod marker;
pub mod numfmt;
pub mod profile;
pub mod report;
pub mod state;
pub mod strutil;

pub use cmdline::expand_filepath_templates;
