use moon_actions::errors::WorkspaceError;
use moon_actions::workspace::{
    config_error, config_path, find_workspace_root, resolve_config_file, signin_credentials, workspace_root, ConfigFile,
    ConfigSource,
};

#[test]
fn environment_root_wins() {
    let found = find_workspace_root(Some("/env/root".into()), &vec!["/a/b".into()], &vec![true]);
    assert_eq!(found.as_deref(), Some("/env/root"));
}

#[test]
fn nearest_folder_with_config_is_the_root() {
    let ancestors = vec!["/repo/apps/app".to_string(), "/repo/apps".to_string(), "/repo".to_string(), "/".to_string()];
    assert_eq!(find_workspace_root(None, &ancestors, &vec![false, false, true, true]).as_deref(), Some("/repo"));
    assert_eq!(find_workspace_root(None, &ancestors, &vec![false, false, false, false]), None);
}

#[test]
fn config_paths() {
    assert_eq!(config_path("/repo", ConfigFile::Workspace), "/repo/.moon/workspace.yml");
    assert_eq!(config_path("/repo", ConfigFile::Toolchain), "/repo/.moon/toolchain.yml");
    assert_eq!(config_path("/repo/", ConfigFile::GlobalProject), "/repo/.moon/project.yml");
}

#[test]
fn missing_config_files() {
    assert!(matches!(resolve_config_file(ConfigFile::Workspace, false), Err(WorkspaceError::MissingWorkspaceConfigFile)));
    assert!(matches!(resolve_config_file(ConfigFile::Toolchain, false), Ok(ConfigSource::Defaults)));
    assert!(matches!(resolve_config_file(ConfigFile::GlobalProject, false), Ok(ConfigSource::Defaults)));
    assert!(matches!(resolve_config_file(ConfigFile::Workspace, true), Ok(ConfigSource::File)));
}

#[test]
fn invalid_config_messages() {
    let e = config_error(ConfigFile::Toolchain, "bad node".into());
    assert_eq!(e.message(), "Failed to validate <file>.moon/toolchain.yml</file> configuration file.\n\nbad node");
    let e = config_error(ConfigFile::Workspace, "x".into());
    assert_eq!(e.message(), "Failed to validate <file>.moon/workspace.yml</file> configuration file.\n\nx");
    let e = config_error(ConfigFile::GlobalProject, "y".into());
    assert_eq!(e.message(), "Failed to validate <file>.moon/project.yml</file> configuration file.\n\ny");
}

#[test]
fn other_messages() {
    assert_eq!(
        WorkspaceError::MissingConfigDir.message(),
        "Unable to determine workspace root. Please create a <file>.moon</file> configuration folder."
    );
    assert_eq!(
        WorkspaceError::MissingWorkspaceConfigFile.message(),
        "Unable to locate <file>.moon/workspace.yml</file> configuration file."
    );
    assert_eq!(WorkspaceError::Vcs("git failed".into()).message(), "git failed");
    assert_eq!(WorkspaceError::Moon("m".into()).message(), "m");
}

#[test]
fn root_or_error() {
    assert!(matches!(workspace_root(None), Err(WorkspaceError::MissingConfigDir)));
    assert_eq!(workspace_root(Some("/repo".into())).ok().as_deref(), Some("/repo"));
}

#[test]
fn signin_needs_both_keys_and_vcs() {
    assert_eq!(signin_credentials(Some("s".into()), Some("a".into()), true), Some(("s".to_string(), "a".to_string())));
    assert_eq!(signin_credentials(Some("s".into()), None, true), None);
    assert_eq!(signin_credentials(None, Some("a".into()), true), None);
    assert_eq!(signin_credentials(Some("s".into()), Some("a".into()), false), None);
}
