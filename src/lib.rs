//! Configuration-driven linter selection, glob path patterns, and the
//! parsing side of a Sapling version-control adapter.

pub mod text;
pub mod pattern;
pub mod linter;
pub mod lint_config;
pub mod sapling;
