use nexus::error::CliError;

#[test]
fn test_error_display() {
    let err = CliError::ContextNotFound("CLI_999".to_string());
    assert_eq!(err.message(), "Context not found: CLI_999");
}

#[test]
fn test_is_retryable() {
    assert!(CliError::ServerNotRunning.is_retryable());
    assert!(CliError::ServerConnectionFailed("timeout".to_string()).is_retryable());
    assert!(!CliError::ContextNotFound("CLI_001".to_string()).is_retryable());
}

#[test]
fn test_suggestion() {
    assert!(CliError::ServerNotRunning.suggestion().is_some());
    assert!(CliError::ContextNotFound("CLI_001".to_string())
        .suggestion()
        .is_some());
    assert!(CliError::UserCancelled.suggestion().is_none());
}

#[test]
fn error_messages_per_variant() {
    assert_eq!(
        CliError::ProjectNotFound("web".to_string()).message(),
        "Project not found: web"
    );
    assert_eq!(
        CliError::ProjectAlreadyExists("web".to_string()).message(),
        "Project already exists: web"
    );
    assert_eq!(
        CliError::ContextAlreadyExists("CLI_001".to_string()).message(),
        "Context already exists: CLI_001"
    );
    assert_eq!(
        CliError::InvalidContextId("nope".to_string()).message(),
        "Invalid context ID format: nope. Expected format: PREFIX_NNN"
    );
    assert_eq!(
        CliError::InvalidProjectName("x y".to_string()).message(),
        "Invalid project name: x y"
    );
    assert_eq!(
        CliError::SetupFailed("disk full".to_string()).message(),
        "Setup failed: disk full"
    );
    assert_eq!(
        CliError::ServerNotRunning.message(),
        "Server is not running. Start it with 'nexus server start'"
    );
    assert_eq!(
        CliError::ServerConnectionFailed("refused".to_string()).message(),
        "Failed to connect to server: refused"
    );
    assert_eq!(
        CliError::WorkflowNotFound("gen".to_string()).message(),
        "Workflow not found: gen"
    );
    assert_eq!(
        CliError::WorkflowExecutionFailed("boom".to_string()).message(),
        "Workflow execution failed: boom"
    );
    assert_eq!(CliError::UserCancelled.message(), "Operation cancelled by user");
    assert_eq!(
        CliError::FileOperationFailed("p".to_string()).message(),
        "File operation failed: p"
    );
    assert_eq!(CliError::Io("broken pipe".to_string()).message(), "IO error: broken pipe");
    assert_eq!(CliError::Json("eof".to_string()).message(), "JSON error: eof");
    assert_eq!(
        CliError::ConfigError("missing".to_string()).message(),
        "Configuration error: missing"
    );
    assert_eq!(CliError::Client("500".to_string()).message(), "Client error: 500");
}

#[test]
fn suggestion_texts() {
    assert_eq!(
        CliError::ServerNotRunning.suggestion(),
        Some("Try running 'nexus server start' first")
    );
    assert_eq!(
        CliError::ServerConnectionFailed("x".to_string()).suggestion(),
        Some("Check if the server is running with 'nexus server status'")
    );
    assert_eq!(
        CliError::WorkflowNotFound("x".to_string()).suggestion(),
        Some("Use 'nexus workflow list' to see available workflows")
    );
    assert_eq!(
        CliError::InvalidContextId("x".to_string()).suggestion(),
        Some("Context IDs should be in the format PREFIX_NNN (e.g., CLI_001)")
    );
    assert_eq!(CliError::Io("x".to_string()).suggestion(), None);
}
