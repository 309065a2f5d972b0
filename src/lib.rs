//! Coordination between a coverage-guided fuzzer and a symbolic-execution
//! test generator: coverage bookkeeping, candidate selection, corpus naming,
//! configuration parsing and the decisions of the control loop. The caller
//! performs the file-system and process work that these decisions ask for.

pub mod config;
pub mod control;
pub mod corpus;
pub mod coverage;
pub mod error;
pub mod executor;
pub mod invocation;
pub mod paths;
pub mod score;
pub mod text;

pub use config::{AflConfig, AflShowmapResult};
pub use control::{Corpus, State, Stats, StatsReport, TestcaseResult};
pub use corpus::TestcaseDir;
pub use coverage::AflMap;
pub use error::{ConfigError, FormatError};
pub use executor::{insert_input_file, SymCC, SymCCResult};
pub use invocation::Invocation;
pub use score::{QueueEntry, TestcaseScore};
pub use vstd::hash_set::StringHashSet;
