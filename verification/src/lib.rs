//! A verified core for a line-oriented text-search tool.
//!
//! The library has two independent components: a path resolver, which turns
//! user-supplied path strings and filesystem lookup outcomes into an ordered
//! list of concrete file targets or per-path errors, and a line matcher, which
//! splits a text into lines (each keeping its original terminator) and keeps
//! exactly the lines whose match status against a compiled pattern equals the
//! requested polarity.

pub mod config;
pub mod matcher;
pub mod output;
pub mod pattern;
pub mod resolver;

pub use config::{Args, Config};
pub use matcher::{find_lines, split_lines};
pub use output::{count_line, format_output, target_output};
pub use pattern::{CompiledPattern, PatternError};
pub use resolver::{find_files, FsLookup, ResolveError, ResolvedEntry};
