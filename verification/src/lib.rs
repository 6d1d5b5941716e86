//! Core of a "run one command in many directories" tool.
//!
//! The library has two halves. The directory resolver turns a list of
//! candidate directory paths into an ordered, deduplicated target list,
//! dropping every path that matches an ignore pattern (plain substring
//! match). The command executor models the two execution policies: a
//! sequential plan that stops at the first failing target, and a parallel
//! report whose verdict is computed only from the complete result set.
//!
//! All filesystem walking, process spawning and configuration-file reading
//! happen in the surrounding binary; the library works on plain values and
//! is verified.

pub mod config;
pub mod executor;
pub mod matching;
pub mod resolve;

pub use config::config_from_fields;
pub use config::default_config;
pub use config::effective_roots;
pub use config::LoopConfig;
pub use executor::aggregate_success;
pub use executor::report_covers;
pub use executor::ExecutionResult;
pub use executor::ParallelRun;
pub use executor::SequentialRun;
pub use matching::contains_substring;
pub use matching::should_ignore;
pub use resolve::resolve_targets;
