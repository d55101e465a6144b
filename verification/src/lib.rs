//! A verified engine for searching a directory tree for file names that
//! match a wildcard pattern.
//!
//! The engine is split into four parts: `pattern` decides whether a name
//! satisfies a wildcard search term, `config` holds the per-run settings and
//! the result counters, `filter` decides which subdirectories are descended
//! into, and `walk` traverses an in-memory directory tree and aggregates the
//! counts. Reading real directories, spawning worker threads and printing
//! matches are left to the surrounding program, which feeds entry listings in
//! and takes counts and match decisions out.

pub mod casefold;
pub mod config;
pub mod filter;
pub mod pattern;
pub mod walk;
