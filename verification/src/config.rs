//! The parts of the toolchain configuration that the runner's decisions read.
use vstd::prelude::*;

verus! {

/// The Node.js package manager a workspace installs with.
#[derive(PartialEq, Eq, Structural, Clone, Copy, Debug)]
pub enum NodePackageManager {
    Npm,
    Pnpm,
    Yarn,
}

/// The TypeScript settings of the toolchain configuration.
pub struct TypeScriptConfig {
    /// The configuration file of each project, such as `tsconfig.json`.
    pub project_config_file_name: String,
    /// The configuration file at the workspace root.
    pub root_config_file_name: String,
    /// The shared compiler-options file at the workspace root.
    pub root_options_config_file_name: String,
}

/// The files that identify a package manager's state in a folder.
pub struct DepManagerFiles {
    /// The manifest, such as `package.json`.
    pub manifest: String,
    /// The lockfile.
    pub lockfile: String,
    /// Further configuration files.
    pub config_files: Vec<String>,
}

}
