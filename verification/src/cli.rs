//! Command-line surface: the parsed invocation, the output format
//! and the subcommands. Argument parsing itself happens at the
//! program's edge; these are the values it hands over.

use vstd::prelude::*;

verus! {

/// How command results are presented.
#[derive(Clone, Copy, Debug, PartialEq, Eq, Structural)]
pub enum OutputFormat {
    Text,
    Json,
}

impl Default for OutputFormat {
    /// Plain text unless JSON is requested.
    fn default() -> (r: Self)
        ensures
            r == OutputFormat::Text,
    {
        OutputFormat::Text
    }
}

/// The subcommands of the tool.
#[derive(Clone, Debug)]
pub enum Commands {
    /// Set up the tool in the current project (extracts the asset
    /// directory).
    Setup,
    /// Update the tool to the latest published version via cargo.
    Update,
    /// Uninstall the tool via cargo.
    Uninstall,
}

/// A parsed invocation: the selected subcommand, if any, and the
/// output format.
pub struct Cli {
    pub command: Option<Commands>,
    pub format: OutputFormat,
}

} // verus!
