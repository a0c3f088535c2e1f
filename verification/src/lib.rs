//! Documentation reference generator: scans a source tree for public
//! declarations and their doc comments, renders cross-linked reference
//! pages, and diffs a rendered tree against a published one.

pub mod text;
pub mod records;
pub mod scan;
pub mod categorize;
pub mod render;
pub mod difftree;
pub mod pipeline;
pub mod laws;
pub mod output;
pub mod error;
pub mod cli;
pub mod context;
pub mod project;
pub mod workflow;
pub mod fuzzy;
pub mod setup;

pub use text::chars_to_string;
pub use text::str_chars;
