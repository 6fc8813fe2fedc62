//! Installing a workspace's or project's Node.js dependencies: when to install, what to
//! run, and what to write into the root `package.json` and version files.
use vstd::prelude::*;
use crate::action::ActionStatus;
use crate::cache::CacheMode;
use crate::config::NodePackageManager;
use crate::paths::{ends_with_path, path_ends_with, paths_eq, same_path};
use crate::text::{join_path, opt_view, path_join, views};

verus! {

/// Why dependencies were not installed.
#[derive(PartialEq, Eq, Structural, Clone, Copy, Debug)]
pub enum InstallSkip {
    /// The cache is written only: the user is forcing a cache update.
    CacheWriteOnly,
    /// Running against affected files: an install would interrupt the workflow.
    AffectedOnly,
    /// The lockfile has not changed since the last install.
    LockfileUnchanged,
    /// In continuous integration, with dependencies already installed.
    VendorInstalledInCi,
    /// There is no internet connection.
    Offline,
}

/// What the install step decides from.
pub struct InstallFacts {
    pub cache_mode: CacheMode,
    pub affected_only: bool,
    /// The project whose dependencies are installed: its folder; none for the workspace root.
    pub project_root: Option<String>,
    pub workspace_root: String,
    /// The files touched in the working copy.
    pub touched_files: Vec<String>,
    /// The package manager's lockfile and manifest names.
    pub lockfile: String,
    pub manifest: String,
    /// When the lockfile in the install folder was last modified, in milliseconds; 0 when
    /// there is none.
    pub lockfile_modified: u128,
    /// When dependencies were last installed, in milliseconds.
    pub last_install_time: u128,
    pub is_ci: bool,
    /// Whether the install folder's dependencies folder already exists.
    pub vendor_installed: bool,
    pub offline: bool,
    /// Whether to dedupe after the lockfile changed.
    pub dedupe_on_lockfile_change: bool,
    pub package_manager: NodePackageManager,
    /// The time now, in milliseconds.
    pub now: u128,
}

/// The outcome of the install step.
pub enum InstallOutcome {
    Skip(InstallSkip),
    /// Run the install command in the folder, then the dedupe command when there is one,
    /// then save the new last-install time.
    Install {
        working_dir: String,
        install_command: String,
        dedupe_command: Option<String>,
        last_install_time: u128,
    },
}

/// What the install step does.
pub struct InstallPlan {
    /// Whether the root `package.json` and version file are synced first (see `sync_workspace`).
    pub sync_root: bool,
    pub outcome: InstallOutcome,
}

/// The install command of a package manager.
pub open spec fn install_command_spec(pm: NodePackageManager) -> Seq<char> {
    match pm {
        NodePackageManager::Npm => "npm install"@,
        NodePackageManager::Pnpm => "pnpm install"@,
        NodePackageManager::Yarn => "yarn install"@,
    }
}

/// The dedupe command of a package manager.
pub open spec fn dedupe_command_spec(pm: NodePackageManager) -> Seq<char> {
    match pm {
        NodePackageManager::Npm => "npm dedupe"@,
        NodePackageManager::Pnpm => "pnpm dedupe"@,
        NodePackageManager::Yarn => "yarn dedupe"@,
    }
}

/// The folder dependencies are installed in: the project's, else the workspace root.
pub open spec fn install_dir(project_root: Option<String>, workspace_root: String) -> Seq<char> {
    match project_root {
        Some(r) => r@,
        None => workspace_root@,
    }
}

/// Whether the touched files hold a path with the same components as `path`.
pub open spec fn touches(touched: Seq<Seq<char>>, path: Seq<char>) -> bool {
    exists|i: int| 0 <= i < touched.len() && same_path(#[trigger] touched[i], path)
}

/// Whether any touched file ends with the lockfile or the manifest, in whichever folder.
pub open spec fn any_ends_with(touched: Seq<Seq<char>>, lockfile: Seq<char>, manifest: Seq<char>) -> bool {
    exists|i: int| 0 <= i < touched.len()
        && (ends_with_path(#[trigger] touched[i], lockfile) || ends_with_path(touched[i], manifest))
}

/// Whether the lockfile or manifest was touched: in the project's folder for a project,
/// anywhere for the workspace root.
pub open spec fn modified_files(f: InstallFacts) -> bool {
    match f.project_root {
        Some(r) => touches(views(f.touched_files@), path_join(r@, f.lockfile@))
            || touches(views(f.touched_files@), path_join(r@, f.manifest@)),
        None => any_ends_with(views(f.touched_files@), f.lockfile@, f.manifest@),
    }
}

/// Whether the lockfile calls for an install: it was touched, it is missing, or it
/// changed after the last install.
pub open spec fn lockfile_changed(f: InstallFacts) -> bool {
    modified_files(f) || f.lockfile_modified == 0 || f.lockfile_modified > f.last_install_time
}

/// Why an install is skipped, if it is, in the order the checks are made.
pub open spec fn install_skip(f: InstallFacts) -> Option<InstallSkip> {
    if f.cache_mode == CacheMode::Write {
        Some(InstallSkip::CacheWriteOnly)
    } else if f.affected_only {
        Some(InstallSkip::AffectedOnly)
    } else if !lockfile_changed(f) {
        Some(InstallSkip::LockfileUnchanged)
    } else if f.is_ci && f.vendor_installed {
        Some(InstallSkip::VendorInstalledInCi)
    } else if f.offline {
        Some(InstallSkip::Offline)
    } else {
        None
    }
}

/// The folder dependencies are installed in: the project's, else the workspace root.
pub fn install_working_dir(project_root: &Option<String>, workspace_root: &String) -> (r: String)
    ensures
        r@ == install_dir(*project_root, *workspace_root),
{
    match project_root {
        Some(root) => root.clone(),
        None => workspace_root.clone(),
    }
}

/// Decides the install step. Nothing happens when the cache is written only or when
/// running against affected files. Otherwise the root files are synced when installing at
/// the workspace root (not for a project), and dependencies are installed in the project's
/// folder, else the workspace root, unless the lockfile is unchanged since the last install,
/// they are already installed in continuous integration, or there is no connection. An
/// install runs the package manager's install command, then its dedupe command outside
/// continuous integration when deduping on lockfile changes is on, and records now as the
/// last install time.
pub fn install_deps(facts: &InstallFacts) -> (r: InstallPlan)
    ensures
        r.sync_root == (facts.cache_mode != CacheMode::Write && !facts.affected_only && facts.project_root is None),
        facts.cache_mode != CacheMode::Write && !facts.affected_only && lockfile_changed(*facts) && !facts.offline
            && !facts.is_ci ==> r.outcome is Install,
        match install_skip(*facts) {
            Some(why) => r.outcome == InstallOutcome::Skip(why),
            None => match r.outcome {
                InstallOutcome::Install { working_dir, install_command, dedupe_command, last_install_time } => {
                    &&& working_dir@ == install_dir(facts.project_root, facts.workspace_root)
                    &&& install_command@ == install_command_spec(facts.package_manager)
                    &&& if !facts.is_ci && facts.dedupe_on_lockfile_change {
                            dedupe_command matches Some(d) && d@ == dedupe_command_spec(facts.package_manager)
                        } else {
                            dedupe_command is None
                        }
                    &&& last_install_time == facts.now
                },
                InstallOutcome::Skip(_) => false,
            },
        },
{
    if facts.cache_mode.is_write_only() {
        return InstallPlan { sync_root: false, outcome: InstallOutcome::Skip(InstallSkip::CacheWriteOnly) };
    }
    if facts.affected_only {
        return InstallPlan { sync_root: false, outcome: InstallOutcome::Skip(InstallSkip::AffectedOnly) };
    }
    let sync_root = facts.project_root.is_none();
    let modified = match &facts.project_root {
        Some(root) => project_has_modified_files(&facts.touched_files, root.as_str(), facts.lockfile.as_str(), facts.manifest.as_str()),
        None => workspace_has_modified_files(&facts.touched_files, facts.lockfile.as_str(), facts.manifest.as_str()),
    };
    if !(modified || facts.lockfile_modified == 0 || facts.lockfile_modified > facts.last_install_time) {
        return InstallPlan { sync_root, outcome: InstallOutcome::Skip(InstallSkip::LockfileUnchanged) };
    }
    if facts.is_ci && facts.vendor_installed {
        return InstallPlan { sync_root, outcome: InstallOutcome::Skip(InstallSkip::VendorInstalledInCi) };
    }
    if facts.offline {
        return InstallPlan { sync_root, outcome: InstallOutcome::Skip(InstallSkip::Offline) };
    }
    let install_command = match facts.package_manager {
        NodePackageManager::Npm => String::from_str("npm install"),
        NodePackageManager::Pnpm => String::from_str("pnpm install"),
        NodePackageManager::Yarn => String::from_str("yarn install"),
    };
    let dedupe_command = if !facts.is_ci && facts.dedupe_on_lockfile_change {
        Some(match facts.package_manager {
            NodePackageManager::Npm => String::from_str("npm dedupe"),
            NodePackageManager::Pnpm => String::from_str("pnpm dedupe"),
            NodePackageManager::Yarn => String::from_str("yarn dedupe"),
        })
    } else {
        None
    };
    let working_dir = install_working_dir(&facts.project_root, &facts.workspace_root);
    InstallPlan {
        sync_root,
        outcome: InstallOutcome::Install { working_dir, install_command, dedupe_command, last_install_time: facts.now },
    }
}

/// The status the install step ends with: passed when dependencies were installed.
pub fn install_status(outcome: &InstallOutcome) -> (r: ActionStatus)
    ensures
        r == if outcome is Install { ActionStatus::Passed } else { ActionStatus::Skipped },
{
    match outcome {
        InstallOutcome::Install { .. } => ActionStatus::Passed,
        InstallOutcome::Skip(_) => ActionStatus::Skipped,
    }
}

/// Whether a project's lockfile or manifest was touched: whether the touched files hold
/// either file in the project's folder, compared by components.
pub fn project_has_modified_files(touched: &Vec<String>, project_root: &str, lockfile: &str, manifest: &str) -> (r: bool)
    ensures
        r == (touches(views(touched@), path_join(project_root@, lockfile@))
            || touches(views(touched@), path_join(project_root@, manifest@))),
{
    let lock_path = join_path(project_root, lockfile);
    let manifest_path = join_path(project_root, manifest);
    contains_path(touched, lock_path.as_str()) || contains_path(touched, manifest_path.as_str())
}

fn contains_path(touched: &Vec<String>, path: &str) -> (r: bool)
    ensures
        r == touches(views(touched@), path@),
{
    let mut i: usize = 0;
    while i < touched.len()
        invariant
            i <= touched.len(),
            forall|k: int| 0 <= k < i ==> !same_path(#[trigger] views(touched@)[k], path@),
        decreases touched.len() - i,
    {
        assert(views(touched@)[i as int] == touched@[i as int]@);
        if paths_eq(touched[i].as_str(), path) {
            return true;
        }
        i = i + 1;
    }
    false
}

/// Whether the workspace's lockfile or manifest was touched: whether any touched file
/// ends with either name, by components.
pub fn workspace_has_modified_files(touched: &Vec<String>, lockfile: &str, manifest: &str) -> (r: bool)
    ensures
        r == any_ends_with(views(touched@), lockfile@, manifest@),
{
    let mut i: usize = 0;
    while i < touched.len()
        invariant
            i <= touched.len(),
            forall|k: int| 0 <= k < i ==> !ends_with_path(#[trigger] views(touched@)[k], lockfile@)
                && !ends_with_path(views(touched@)[k], manifest@),
        decreases touched.len() - i,
    {
        assert(views(touched@)[i as int] == touched@[i as int]@);
        if path_ends_with(touched[i].as_str(), lockfile) || path_ends_with(touched[i].as_str(), manifest) {
            return true;
        }
        i = i + 1;
    }
    false
}

/// The `packageManager` value for the root `package.json`: the package manager and its
/// configured version; none when the chosen manager has no configured version.
pub fn add_package_manager(
    package_manager: NodePackageManager,
    npm_version: &str,
    pnpm_version: &Option<String>,
    yarn_version: &Option<String>,
) -> (r: Option<String>)
    ensures
        opt_view(r) == match package_manager {
            NodePackageManager::Npm => Some("npm@"@ + npm_version@),
            NodePackageManager::Pnpm => match pnpm_version {
                Some(v) => Some("pnpm@"@ + v@),
                None => None,
            },
            NodePackageManager::Yarn => match yarn_version {
                Some(v) => Some("yarn@"@ + v@),
                None => None,
            },
        },
{
    match package_manager {
        NodePackageManager::Npm => {
            let mut s = String::from_str("npm@");
            s.append(npm_version);
            Some(s)
        },
        NodePackageManager::Pnpm => match pnpm_version {
            Some(v) => {
                let mut s = String::from_str("pnpm@");
                s.append(v.as_str());
                Some(s)
            },
            None => None,
        },
        NodePackageManager::Yarn => match yarn_version {
            Some(v) => {
                let mut s = String::from_str("yarn@");
                s.append(v.as_str());
                Some(s)
            },
            None => None,
        },
    }
}

/// The `engines` constraint for the root `package.json`, when the toolchain adds one:
/// Node.js at the configured version.
pub fn add_engines_constraint(add_constraint: bool, node_version: &str) -> (r: Option<(String, String)>)
    ensures
        add_constraint <==> r is Some,
        r matches Some((engine, version)) ==> engine@ == "node"@ && version@ == node_version@,
{
    if add_constraint {
        Some((String::from_str("node"), String::from_str(node_version)))
    } else {
        None
    }
}

/// The tool that pins the Node.js version for a shell.
#[derive(PartialEq, Eq, Structural, Clone, Copy, Debug)]
pub enum NodeVersionManager {
    Nodenv,
    Nvm,
}

/// The version file a version manager reads.
pub open spec fn version_file_name(vm: NodeVersionManager) -> Seq<char> {
    match vm {
        NodeVersionManager::Nodenv => ".node-version"@,
        NodeVersionManager::Nvm => ".nvmrc"@,
    }
}

/// The path of the version file written at the workspace root for a version manager.
pub fn version_file_path(workspace_root: &str, vm: NodeVersionManager) -> (r: String)
    ensures
        r@ == path_join(workspace_root@, version_file_name(vm)),
{
    match vm {
        NodeVersionManager::Nodenv => join_path(workspace_root, ".node-version"),
        NodeVersionManager::Nvm => join_path(workspace_root, ".nvmrc"),
    }
}

/// Dependencies are never installed while the cache is written only or while running
/// against affected files, whatever else holds.
pub proof fn law_no_install_when_forced_or_affected(f: InstallFacts)
    requires
        f.cache_mode == CacheMode::Write || f.affected_only,
    ensures
        install_skip(f) is Some,
        install_skip(f) != Some(InstallSkip::LockfileUnchanged),
{
}

/// Outside continuous integration an existing dependencies folder never stops an install:
/// with a readable cache, not running against affected files, a changed lockfile and a
/// connection, dependencies are installed whether or not they are already there.
pub proof fn law_installs_outside_ci_when_lockfile_changed(f: InstallFacts)
    requires
        f.cache_mode != CacheMode::Write,
        !f.affected_only,
        lockfile_changed(f),
        !f.offline,
        !f.is_ci,
    ensures
        install_skip(f) is None,
{
}

/// In continuous integration with dependencies already installed, a changed lockfile is
/// not installed.
pub proof fn law_ci_with_dependencies_skips(f: InstallFacts)
    requires
        f.cache_mode != CacheMode::Write,
        !f.affected_only,
        lockfile_changed(f),
        f.is_ci,
        f.vendor_installed,
    ensures
        install_skip(f) == Some(InstallSkip::VendorInstalledInCi),
{
}

/// The lockfile calls for an install when it is newer than the last install or missing,
/// and does not when it exists, is no newer than the last install and was not touched.
pub proof fn law_lockfile_age_decides(f: InstallFacts)
    ensures
        f.lockfile_modified > f.last_install_time ==> lockfile_changed(f),
        f.lockfile_modified == 0 ==> lockfile_changed(f),
        f.lockfile_modified != 0 && f.lockfile_modified <= f.last_install_time && !modified_files(f)
            ==> !lockfile_changed(f),
{
}

/// Each package manager installs and dedupes with its own command.
pub proof fn law_package_manager_commands()
    ensures
        install_command_spec(NodePackageManager::Npm) == "npm install"@,
        install_command_spec(NodePackageManager::Pnpm) == "pnpm install"@,
        install_command_spec(NodePackageManager::Yarn) == "yarn install"@,
        dedupe_command_spec(NodePackageManager::Npm) == "npm dedupe"@,
        dedupe_command_spec(NodePackageManager::Pnpm) == "pnpm dedupe"@,
        dedupe_command_spec(NodePackageManager::Yarn) == "yarn dedupe"@,
{
}

/// An unchanged lockfile never leads to an install.
pub proof fn law_install_needs_changed_lockfile(f: InstallFacts)
    requires
        install_skip(f) is None,
    ensures
        lockfile_changed(f),
        !f.offline,
        !(f.is_ci && f.vendor_installed),
{
}

}
