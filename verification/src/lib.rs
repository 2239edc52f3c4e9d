//! Finds the conflict markers that a multi-side merge leaves in a file and
//! hands them out as records with exact source ranges, for editor tooling
//! to turn into diagnostics and quick fixes.

pub mod backend;
pub mod conflict;
pub mod diagnostics;
pub mod grammar;
pub mod lemmas;
pub mod lines;
pub mod model;
pub mod types;
pub mod utils;
