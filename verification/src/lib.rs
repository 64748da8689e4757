//! A structural linter for agent-configuration workspaces.
//!
//! The library checks a snapshot of a workspace directory tree against a
//! fixed rule set: a required top-level document free of workflow language
//! and code fences, agent documents with frontmatter and length limits,
//! skill documents with required sections, and reference documents that
//! announce themselves as optional. Directory traversal and file reading
//! happen outside the library; the checkers here work on plain values and
//! return a structured, ordered error report.

pub mod checks;
pub mod laws;
pub mod lowercase;
pub mod report;
pub mod rules;
pub mod text;
