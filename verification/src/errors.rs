//! The errors of loading a workspace, and their messages.
use vstd::prelude::*;

verus! {

/// Why a workspace could not be loaded.
#[derive(Debug)]
pub enum WorkspaceError {
    MissingConfigDir,
    MissingWorkspaceConfigFile,
    /// The toolchain configuration is invalid; the validation message.
    InvalidToolchainConfigFile(String),
    /// The workspace configuration is invalid; the validation message.
    InvalidWorkspaceConfigFile(String),
    /// The global project configuration is invalid; the validation message.
    InvalidGlobalProjectConfigFile(String),
    /// A general failure, by its message.
    Moon(String),
    /// A failure of the remote cache service, by its message.
    Moonbase(String),
    /// A failure of a tool, by its message.
    Tool(String),
    /// A failure of the toolchain, by its message.
    Toolchain(String),
    /// A failure of version control, by its message.
    Vcs(String),
}

/// The message of an error.
pub open spec fn workspace_error_message(e: WorkspaceError) -> Seq<char> {
    match e {
        WorkspaceError::MissingConfigDir =>
            "Unable to determine workspace root. Please create a <file>.moon</file> configuration folder."@,
        WorkspaceError::MissingWorkspaceConfigFile =>
            "Unable to locate <file>.moon/workspace.yml</file> configuration file."@,
        WorkspaceError::InvalidToolchainConfigFile(m) =>
            "Failed to validate <file>.moon/toolchain.yml</file> configuration file.\n\n"@ + m@,
        WorkspaceError::InvalidWorkspaceConfigFile(m) =>
            "Failed to validate <file>.moon/workspace.yml</file> configuration file.\n\n"@ + m@,
        WorkspaceError::InvalidGlobalProjectConfigFile(m) =>
            "Failed to validate <file>.moon/project.yml</file> configuration file.\n\n"@ + m@,
        WorkspaceError::Moon(m) => m@,
        WorkspaceError::Moonbase(m) => m@,
        WorkspaceError::Tool(m) => m@,
        WorkspaceError::Toolchain(m) => m@,
        WorkspaceError::Vcs(m) => m@,
    }
}

impl WorkspaceError {
    /// The message shown for the error.
    pub fn message(&self) -> (r: String)
        ensures
            r@ == workspace_error_message(*self),
    {
        match self {
            WorkspaceError::MissingConfigDir =>
                String::from_str("Unable to determine workspace root. Please create a <file>.moon</file> configuration folder."),
            WorkspaceError::MissingWorkspaceConfigFile =>
                String::from_str("Unable to locate <file>.moon/workspace.yml</file> configuration file."),
            WorkspaceError::InvalidToolchainConfigFile(m) => {
                let mut s = String::from_str("Failed to validate <file>.moon/toolchain.yml</file> configuration file.\n\n");
                s.append(m.as_str());
                s
            },
            WorkspaceError::InvalidWorkspaceConfigFile(m) => {
                let mut s = String::from_str("Failed to validate <file>.moon/workspace.yml</file> configuration file.\n\n");
                s.append(m.as_str());
                s
            },
            WorkspaceError::InvalidGlobalProjectConfigFile(m) => {
                let mut s = String::from_str("Failed to validate <file>.moon/project.yml</file> configuration file.\n\n");
                s.append(m.as_str());
                s
            },
            WorkspaceError::Moon(m) => m.clone(),
            WorkspaceError::Moonbase(m) => m.clone(),
            WorkspaceError::Tool(m) => m.clone(),
            WorkspaceError::Toolchain(m) => m.clone(),
            WorkspaceError::Vcs(m) => m.clone(),
        }
    }
}

}
