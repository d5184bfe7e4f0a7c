//! A minimal interactive shell core: command-line tokenization, builtin
//! identification, search-path resolution, and the dispatch decisions each
//! handler makes, all stated and proved as contracts. Reading input,
//! touching the filesystem, and spawning processes stay outside the
//! library; callers hand in plain values and carry out the returned
//! actions.

pub mod builtins;
pub mod command_handler;
pub mod laws;
pub mod parse;
pub mod report;
pub mod search;
pub mod text;
pub mod tokenize;
