//! Failures that the library reports.
use vstd::prelude::*;

verus! {

/// The fuzzer's persisted statistics do not describe a usable configuration.
#[derive(Debug, Clone, Copy, PartialEq, Eq, Structural)]
pub enum ConfigError {
    /// No line of the statistics is keyed `command_line`.
    MissingCommandLine,
    /// The `command_line` line carries no `:` separator.
    MalformedCommandLine,
    /// The command holds no `--` separator followed by a program name.
    CommandTooShort,
    /// The fuzzer's own binary has no directory that could hold the probe.
    NoBinaryDirectory,
}

/// Data that does not have the expected shape.
#[derive(Debug, Clone, Copy, PartialEq, Eq, Structural)]
pub enum FormatError {
    /// A coverage map of the wrong size; carries the size found.
    WrongMapSize(usize),
    /// A parent test-case name that does not start with the ID prefix.
    MissingIdPrefix,
    /// A parent test-case name too short to hold a lineage ID after the prefix.
    MissingLineageId,
}

} // verus!
