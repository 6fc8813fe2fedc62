//! Finding a workspace, deciding how its configuration files are read, and signing in to
//! the remote cache service.
use vstd::prelude::*;
use crate::errors::WorkspaceError;
use crate::text::{join_path, path_join};

verus! {

/// The configuration folder that marks a workspace root.
pub open spec fn config_dirname() -> Seq<char> {
    ".moon"@
}

/// Finds the workspace root: the folder named by `MOON_WORKSPACE_ROOT` when set, else
/// the first of the working folder and its ancestors (`ancestors`, nearest first) that
/// holds the configuration folder (`has_config_dir` for each).
pub fn find_workspace_root(env_root: Option<String>, ancestors: &Vec<String>, has_config_dir: &Vec<bool>) -> (r: Option<String>)
    requires
        ancestors.len() == has_config_dir.len(),
    ensures
        env_root matches Some(e) ==> r matches Some(s) && s@ == e@,
        env_root is None ==> match r {
            Some(s) => exists|i: int| 0 <= i < ancestors.len() && #[trigger] has_config_dir@[i]
                && s@ == ancestors@[i]@ && forall|j: int| 0 <= j < i ==> !has_config_dir@[j],
            None => forall|i: int| 0 <= i < has_config_dir.len() ==> !#[trigger] has_config_dir@[i],
        },
{
    match &env_root {
        Some(e) => Some(e.clone()),
        None => {
            let mut i: usize = 0;
            while i < ancestors.len()
                invariant
                    env_root is None,
                    ancestors.len() == has_config_dir.len(),
                    i <= ancestors.len(),
                    forall|j: int| 0 <= j < i ==> !#[trigger] has_config_dir@[j],
                decreases ancestors.len() - i,
            {
                if has_config_dir[i] {
                    return Some(ancestors[i].clone());
                }
                i = i + 1;
            }
            None
        },
    }
}

/// The configuration files of a workspace.
#[derive(PartialEq, Eq, Structural, Clone, Copy, Debug)]
pub enum ConfigFile {
    /// `.moon/project.yml`, shared by every project.
    GlobalProject,
    /// `.moon/toolchain.yml`.
    Toolchain,
    /// `.moon/workspace.yml`.
    Workspace,
}

/// The file name of a configuration file.
pub open spec fn config_file_name(file: ConfigFile) -> Seq<char> {
    match file {
        ConfigFile::GlobalProject => "project.yml"@,
        ConfigFile::Toolchain => "toolchain.yml"@,
        ConfigFile::Workspace => "workspace.yml"@,
    }
}

/// The path of a configuration file under the workspace root.
pub fn config_path(root: &str, file: ConfigFile) -> (r: String)
    ensures
        r@ == path_join(path_join(root@, config_dirname()), config_file_name(file)),
{
    let dir = join_path(root, ".moon");
    match file {
        ConfigFile::GlobalProject => join_path(dir.as_str(), "project.yml"),
        ConfigFile::Toolchain => join_path(dir.as_str(), "toolchain.yml"),
        ConfigFile::Workspace => join_path(dir.as_str(), "workspace.yml"),
    }
}

/// How a configuration file is read.
#[derive(PartialEq, Eq, Structural, Clone, Copy, Debug)]
pub enum ConfigSource {
    /// The file is missing: the defaults are used.
    Defaults,
    /// The file is read and validated.
    File,
}

/// How a configuration file is read: a file that exists is read; a missing project or
/// toolchain file means the defaults; a missing workspace file is an error.
pub fn resolve_config_file(file: ConfigFile, exists: bool) -> (r: Result<ConfigSource, WorkspaceError>)
    ensures
        exists ==> r == Ok::<ConfigSource, WorkspaceError>(ConfigSource::File),
        !exists && file == ConfigFile::Workspace ==> r == Err::<ConfigSource, WorkspaceError>(WorkspaceError::MissingWorkspaceConfigFile),
        !exists && file != ConfigFile::Workspace ==> r == Ok::<ConfigSource, WorkspaceError>(ConfigSource::Defaults),
{
    if exists {
        Ok(ConfigSource::File)
    } else if file == ConfigFile::Workspace {
        Err(WorkspaceError::MissingWorkspaceConfigFile)
    } else {
        Ok(ConfigSource::Defaults)
    }
}

/// The error for a configuration file that failed validation, with the validation message.
pub fn config_error(file: ConfigFile, message: String) -> (r: WorkspaceError)
    ensures
        r == match file {
            ConfigFile::GlobalProject => WorkspaceError::InvalidGlobalProjectConfigFile(message),
            ConfigFile::Toolchain => WorkspaceError::InvalidToolchainConfigFile(message),
            ConfigFile::Workspace => WorkspaceError::InvalidWorkspaceConfigFile(message),
        },
{
    match file {
        ConfigFile::GlobalProject => WorkspaceError::InvalidGlobalProjectConfigFile(message),
        ConfigFile::Toolchain => WorkspaceError::InvalidToolchainConfigFile(message),
        ConfigFile::Workspace => WorkspaceError::InvalidWorkspaceConfigFile(message),
    }
}

/// The root a workspace is loaded from, or the error when none was found.
pub fn workspace_root(found: Option<String>) -> (r: Result<String, WorkspaceError>)
    ensures
        match found {
            Some(f) => r matches Ok(s) && s == f,
            None => r == Err::<String, WorkspaceError>(WorkspaceError::MissingConfigDir),
        },
{
    match found {
        Some(f) => Ok(f),
        None => Err(WorkspaceError::MissingConfigDir),
    }
}

/// The credentials to sign in to the remote cache service with: both keys from the
/// environment, and only when version control is available (the repository names the
/// session).
pub fn signin_credentials(secret_key: Option<String>, api_key: Option<String>, vcs_enabled: bool) -> (r: Option<(String, String)>)
    ensures
        r is Some <==> (secret_key is Some && api_key is Some && vcs_enabled),
        r matches Some((s, a)) ==> s == secret_key->0 && a == api_key->0,
{
    match (secret_key, api_key) {
        (Some(s), Some(a)) => if vcs_enabled { Some((s, a)) } else { None },
        _ => None,
    }
}

}
