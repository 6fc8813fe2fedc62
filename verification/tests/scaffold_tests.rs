use moon_actions::config::{DepManagerFiles, NodePackageManager, TypeScriptConfig};
use moon_actions::scaffold::{
    collect_focused, copy_action, project_config_files, root_config_files, scaffold_sources, CopyAction,
    ProjectGraph, ProjectNode, ScaffoldError,
};

fn node(id: &str, source: &str, deps: &[&str]) -> ProjectNode {
    ProjectNode {
        id: id.to_string(),
        source: source.to_string(),
        dependencies: deps.iter().map(|d| d.to_string()).collect(),
    }
}

fn graph() -> ProjectGraph {
    ProjectGraph {
        projects: vec![
            node("app", "apps/app", &["ui", "utils"]),
            node("ui", "packages/ui", &["utils"]),
            node("utils", "packages/utils", &[]),
            node("docs", "apps/docs", &["ui"]),
            node("other", "packages/other", &[]),
        ],
    }
}

fn ids(items: &[&str]) -> Vec<String> {
    items.iter().map(|s| s.to_string()).collect()
}

#[test]
fn focus_follows_dependencies() {
    let plan = match scaffold_sources(&graph(), &ids(&["app"]), "/repo", &vec![]) {
        Ok(p) => p,
        Err(_) => panic!("expected a plan"),
    };
    let mut focused: Vec<&String> = plan.manifest.focused_projects.iter().collect();
    focused.sort();
    assert_eq!(focused, vec!["app", "ui", "utils"]);
    let mut unfocused: Vec<&String> = plan.manifest.unfocused_projects.iter().collect();
    unfocused.sort();
    assert_eq!(unfocused, vec!["docs", "other"]);
    let mut sources = plan.sources.clone();
    sources.sort();
    assert_eq!(sources, vec!["apps/app", "packages/ui", "packages/utils"]);
}

#[test]
fn focus_of_several_projects_copies_each_once() {
    let plan = match scaffold_sources(&graph(), &ids(&["docs", "app", "ui"]), "/repo", &vec![]) {
        Ok(p) => p,
        Err(_) => panic!("expected a plan"),
    };
    assert_eq!(plan.manifest.focused_projects.len(), 4);
    assert!(plan.manifest.unfocused_projects.contains("other"));
    assert_eq!(plan.manifest.unfocused_projects.len(), 1);
    assert_eq!(plan.sources.len(), 4);
}

#[test]
fn focus_of_nothing_leaves_all_unfocused() {
    let plan = match scaffold_sources(&graph(), &Vec::new(), "/repo", &vec![]) {
        Ok(p) => p,
        Err(_) => panic!("expected a plan"),
    };
    assert!(plan.manifest.focused_projects.is_empty());
    assert_eq!(plan.manifest.unfocused_projects.len(), 5);
    assert!(plan.sources.is_empty());
}

#[test]
fn unknown_requested_project_is_an_error() {
    match scaffold_sources(&graph(), &ids(&["missing"]), "/repo", &vec![]) {
        Err(ScaffoldError::UnknownProject(id)) => assert_eq!(id, "missing"),
        Ok(_) => panic!("expected an error"),
    }
}

#[test]
fn first_unknown_requested_project_is_named() {
    match scaffold_sources(&graph(), &ids(&["x", "y"]), "/repo", &vec![]) {
        Err(ScaffoldError::UnknownProject(id)) => assert_eq!(id, "x"),
        Ok(_) => panic!("expected an error"),
    }
    match collect_focused(&graph(), &ids(&["app", "missing"])) {
        Err(ScaffoldError::UnknownProject(id)) => assert_eq!(id, "missing"),
        Ok(_) => panic!("expected an error"),
    }
}

#[test]
fn projects_are_visited_depth_first_in_order() {
    let g = graph();
    let order = match collect_focused(&g, &ids(&["docs", "app"])) {
        Ok(o) => o,
        Err(_) => panic!("expected an order"),
    };
    let visited: Vec<&str> = order.iter().map(|k| g.projects[*k].id.as_str()).collect();
    assert_eq!(visited, vec!["docs", "ui", "utils", "app"]);
}

#[test]
fn shared_folders_are_copied_once_and_includes_are_relative() {
    let mut g = graph();
    g.projects.push(node("app-e2e", "apps/app", &[]));
    let matches = vec!["/repo/scripts/setup.sh".to_string(), "/repo/tsconfig.options.json".to_string()];
    let plan = match scaffold_sources(&g, &ids(&["app", "app-e2e"]), "/repo", &matches) {
        Ok(p) => p,
        Err(_) => panic!("expected a plan"),
    };
    assert_eq!(plan.manifest.focused_projects.len(), 4);
    let mut sources = plan.sources.clone();
    sources.sort();
    assert_eq!(sources, vec!["apps/app", "packages/ui", "packages/utils"]);
    assert_eq!(plan.include_files, vec!["scripts/setup.sh", "tsconfig.options.json"]);
}

#[test]
fn unknown_dependency_is_an_error() {
    let mut g = graph();
    g.projects.push(node("broken", "apps/broken", &["ghost"]));
    match collect_focused(&g, &ids(&["broken"])) {
        Err(ScaffoldError::UnknownProject(id)) => assert_eq!(id, "ghost"),
        Ok(_) => panic!("expected an error"),
    }
}

#[test]
fn cycles_are_followed_once() {
    let g = ProjectGraph { projects: vec![node("a", "a", &["b"]), node("b", "b", &["a"])] };
    let order = match collect_focused(&g, &ids(&["a"])) {
        Ok(o) => o,
        Err(_) => panic!("expected an order"),
    };
    let mut sorted = order.clone();
    sorted.sort();
    assert_eq!(sorted, vec![0, 1]);
}

fn ts() -> TypeScriptConfig {
    TypeScriptConfig {
        project_config_file_name: "tsconfig.json".to_string(),
        root_config_file_name: "tsconfig.json".to_string(),
        root_options_config_file_name: "tsconfig.options.json".to_string(),
    }
}

#[test]
fn project_files_for_node_and_typescript() {
    let files = project_config_files(true, "package.json", &ids(&["js", "cjs"]), &Some(ts()));
    assert_eq!(files, ids(&["package.json", "postinstall.js", "postinstall.cjs", "tsconfig.json"]));
    assert!(project_config_files(false, "package.json", &ids(&["js"]), &None).is_empty());
}

#[test]
fn root_files_follow_the_package_manager() {
    let npm = DepManagerFiles { manifest: "package.json".into(), lockfile: "package-lock.json".into(), config_files: ids(&[".npmrc"]) };
    let pnpm = DepManagerFiles { manifest: "package.json".into(), lockfile: "pnpm-lock.yaml".into(), config_files: ids(&[".npmrc", "pnpm-workspace.yaml"]) };
    let yarn = DepManagerFiles { manifest: "package.json".into(), lockfile: "yarn.lock".into(), config_files: ids(&[".yarnrc.yml"]) };
    let files = root_config_files(Some(NodePackageManager::Pnpm), &npm, &pnpm, &yarn, &Some(ts()));
    assert_eq!(files, ids(&["package.json", "pnpm-lock.yaml", ".npmrc", "pnpm-workspace.yaml", "tsconfig.json", "tsconfig.options.json"]));
    let files = root_config_files(Some(NodePackageManager::Yarn), &npm, &pnpm, &yarn, &None);
    assert_eq!(files, ids(&["package.json", "yarn.lock", ".yarnrc.yml"]));
    assert!(root_config_files(None, &npm, &pnpm, &yarn, &None).is_empty());
}

#[test]
fn copy_actions() {
    assert_eq!(copy_action(false, true), CopyAction::Skip);
    assert_eq!(copy_action(true, true), CopyAction::CopyDir);
    assert_eq!(copy_action(true, false), CopyAction::CopyFile);
}
