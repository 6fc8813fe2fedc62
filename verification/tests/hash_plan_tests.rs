use moon_actions::hash_plan::{common_hasher_plan, HashStep};

fn strings(items: &[&str]) -> Vec<String> {
    items.iter().map(|s| s.to_string()).collect()
}

fn names(plan: &[HashStep]) -> Vec<&'static str> {
    plan.iter()
        .map(|s| match s {
            HashStep::ProjectDeps => "project-deps",
            HashStep::Task => "task",
            HashStep::TaskDeps => "task-deps",
            HashStep::Args(_) => "args",
            HashStep::InputFiles(_) => "input-files",
            HashStep::InputTree(_) => "input-tree",
            HashStep::TouchedFiles(_) => "touched",
        })
        .collect()
}

#[test]
fn every_step_in_order_with_touched_files_last() {
    let plan = common_hasher_plan(
        true,
        &strings(&["--fix"]),
        &strings(&["apps/app/package.json"]),
        true,
        "apps/app",
        &strings(&["apps/app/src/a.ts", "apps/app/src/gone.ts", "README.md"]),
        &strings(&["apps/app/src/gone.ts"]),
        &vec![true, true, false],
    );
    assert_eq!(names(&plan), vec!["project-deps", "task", "task-deps", "args", "input-files", "input-tree", "touched"]);
    match &plan[3] {
        HashStep::Args(a) => assert_eq!(a, &strings(&["--fix"])),
        _ => panic!("expected the arguments"),
    }
    match &plan[5] {
        HashStep::InputTree(s) => assert_eq!(s, "apps/app"),
        _ => panic!("expected the tree"),
    }
    match &plan[6] {
        HashStep::TouchedFiles(f) => assert_eq!(f, &strings(&["apps/app/src/a.ts"])),
        _ => panic!("expected the touched files"),
    }
}

#[test]
fn optional_steps_are_left_out() {
    let plan = common_hasher_plan(false, &strings(&["--fix"]), &vec![], false, "apps/app", &strings(&["x"]), &vec![], &vec![false]);
    assert_eq!(names(&plan), vec!["project-deps", "task", "task-deps"]);
}
