//! A version-gated update pipeline for named remote artifact sets
//! ("packages").  For each package the pipeline compares a locally recorded
//! version against a remote version, conditionally downloads a segmented
//! archive volume by volume, extracts it with an external archiving tool —
//! retrying with escalating password prompts when a password is wrong — and
//! reconciles the result into a destination directory.
//!
//! This crate holds the pipeline's logic with its contracts: version
//! parsing and ordering, manifest parsing, filename normalization, the
//! update and reconciliation decisions, extraction planning and failure
//! classification, the password retry state machine, and the package
//! processing order.  The surrounding program supplies what the logic
//! cannot: HTTP, the filesystem, the console, and the archiving subprocess.
pub mod extract;
pub mod filename;
pub mod manifest;
pub mod packages;
pub mod password;
pub mod prompts;
pub mod reconcile;
pub mod text;
pub mod update;
pub mod version;
