//! Error taxonomy of the command-line tool: one variant per failure
//! class, each with its user-facing message, a retryability flag and
//! an optional remediation hint.

use vstd::prelude::*;

use crate::text::chars_to_string;
use crate::text::push_all;
use crate::text::push_str_chars;
use crate::text::str_chars;

verus! {

/// Errors that can occur during CLI operations. Failures coming from
/// the platform, the serializer or the remote client carry their
/// rendered message.
pub enum CliError {
    /// Context not found.
    ContextNotFound(String),
    /// Project not found.
    ProjectNotFound(String),
    /// Project already exists.
    ProjectAlreadyExists(String),
    /// Context already exists.
    ContextAlreadyExists(String),
    /// Invalid context ID format.
    InvalidContextId(String),
    /// Invalid project name.
    InvalidProjectName(String),
    /// Setup failed.
    SetupFailed(String),
    /// Server not running.
    ServerNotRunning,
    /// Server connection failed.
    ServerConnectionFailed(String),
    /// Workflow not found.
    WorkflowNotFound(String),
    /// Workflow execution failed.
    WorkflowExecutionFailed(String),
    /// User cancelled operation.
    UserCancelled,
    /// File operation failed.
    FileOperationFailed(String),
    /// IO error.
    Io(String),
    /// JSON serialization/deserialization error.
    Json(String),
    /// Configuration error.
    ConfigError(String),
    /// Client error from the remote client.
    Client(String),
}

/// The user-facing message of each error.
pub open spec fn spec_error_message(e: &CliError) -> Seq<char> {
    match e {
        CliError::ContextNotFound(s) => "Context not found: "@ + s@,
        CliError::ProjectNotFound(s) => "Project not found: "@ + s@,
        CliError::ProjectAlreadyExists(s) => "Project already exists: "@ + s@,
        CliError::ContextAlreadyExists(s) => "Context already exists: "@ + s@,
        CliError::InvalidContextId(s) => "Invalid context ID format: "@ + s@
            + ". Expected format: PREFIX_NNN"@,
        CliError::InvalidProjectName(s) => "Invalid project name: "@ + s@,
        CliError::SetupFailed(s) => "Setup failed: "@ + s@,
        CliError::ServerNotRunning => "Server is not running. Start it with 'nexus server start'"@,
        CliError::ServerConnectionFailed(s) => "Failed to connect to server: "@ + s@,
        CliError::WorkflowNotFound(s) => "Workflow not found: "@ + s@,
        CliError::WorkflowExecutionFailed(s) => "Workflow execution failed: "@ + s@,
        CliError::UserCancelled => "Operation cancelled by user"@,
        CliError::FileOperationFailed(s) => "File operation failed: "@ + s@,
        CliError::Io(s) => "IO error: "@ + s@,
        CliError::Json(s) => "JSON error: "@ + s@,
        CliError::ConfigError(s) => "Configuration error: "@ + s@,
        CliError::Client(s) => "Client error: "@ + s@,
    }
}

impl CliError {
    /// Render the error for display.
    pub fn message(&self) -> (r: String)
        ensures
            r@ == spec_error_message(self),
    {
        match self {
            CliError::ContextNotFound(s) => prefixed("Context not found: ", s),
            CliError::ProjectNotFound(s) => prefixed("Project not found: ", s),
            CliError::ProjectAlreadyExists(s) => prefixed("Project already exists: ", s),
            CliError::ContextAlreadyExists(s) => prefixed("Context already exists: ", s),
            CliError::InvalidContextId(s) => {
                let mut m: Vec<char> = Vec::new();
                push_str_chars(&mut m, "Invalid context ID format: ");
                let sv = str_chars(s.as_str());
                push_all(&mut m, &sv);
                push_str_chars(&mut m, ". Expected format: PREFIX_NNN");
                chars_to_string(&m)
            },
            CliError::InvalidProjectName(s) => prefixed("Invalid project name: ", s),
            CliError::SetupFailed(s) => prefixed("Setup failed: ", s),
            CliError::ServerNotRunning => {
                let v = str_chars("Server is not running. Start it with 'nexus server start'");
                chars_to_string(&v)
            },
            CliError::ServerConnectionFailed(s) => prefixed("Failed to connect to server: ", s),
            CliError::WorkflowNotFound(s) => prefixed("Workflow not found: ", s),
            CliError::WorkflowExecutionFailed(s) => prefixed("Workflow execution failed: ", s),
            CliError::UserCancelled => {
                let v = str_chars("Operation cancelled by user");
                chars_to_string(&v)
            },
            CliError::FileOperationFailed(s) => prefixed("File operation failed: ", s),
            CliError::Io(s) => prefixed("IO error: ", s),
            CliError::Json(s) => prefixed("JSON error: ", s),
            CliError::ConfigError(s) => prefixed("Configuration error: ", s),
            CliError::Client(s) => prefixed("Client error: ", s),
        }
    }

    /// Whether retrying the operation can help: only failures to
    /// reach the server are retryable.
    pub fn is_retryable(&self) -> (r: bool)
        ensures
            r == (self matches CliError::ServerNotRunning || self matches CliError::ServerConnectionFailed(_)),
    {
        match self {
            CliError::ServerNotRunning => true,
            CliError::ServerConnectionFailed(_) => true,
            _ => false,
        }
    }

    /// A user-friendly suggestion for fixing the error, when one
    /// exists.
    pub fn suggestion(&self) -> (r: Option<&'static str>)
        ensures
            match self {
                CliError::ServerNotRunning => r matches Some(s) && s@
                    == "Try running 'nexus server start' first"@,
                CliError::ServerConnectionFailed(_) => r matches Some(s) && s@
                    == "Check if the server is running with 'nexus server status'"@,
                CliError::ContextNotFound(_) => r matches Some(s) && s@
                    == "Use 'nexus context list' to see available contexts"@,
                CliError::ProjectNotFound(_) => r matches Some(s) && s@
                    == "Use 'nexus project list' to see available projects"@,
                CliError::WorkflowNotFound(_) => r matches Some(s) && s@
                    == "Use 'nexus workflow list' to see available workflows"@,
                CliError::InvalidContextId(_) => r matches Some(s) && s@
                    == "Context IDs should be in the format PREFIX_NNN (e.g., CLI_001)"@,
                _ => r is None,
            },
    {
        match self {
            CliError::ServerNotRunning => Some("Try running 'nexus server start' first"),
            CliError::ServerConnectionFailed(_) => Some(
                "Check if the server is running with 'nexus server status'",
            ),
            CliError::ContextNotFound(_) => Some(
                "Use 'nexus context list' to see available contexts",
            ),
            CliError::ProjectNotFound(_) => Some(
                "Use 'nexus project list' to see available projects",
            ),
            CliError::WorkflowNotFound(_) => Some(
                "Use 'nexus workflow list' to see available workflows",
            ),
            CliError::InvalidContextId(_) => Some(
                "Context IDs should be in the format PREFIX_NNN (e.g., CLI_001)",
            ),
            _ => None,
        }
    }
}

/// A message built from a fixed prefix and a payload.
fn prefixed(prefix: &str, s: &String) -> (r: String)
    ensures
        r@ == prefix@ + s@,
{
    let mut m: Vec<char> = Vec::new();
    push_str_chars(&mut m, prefix);
    let sv = str_chars(s.as_str());
    push_all(&mut m, &sv);
    chars_to_string(&m)
}

} // verus!
