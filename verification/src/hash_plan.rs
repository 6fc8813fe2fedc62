//! What goes into a target's hash, and in which order: the project's dependencies, the
//! task, the hashes of the task's dependencies, the passed-through arguments when the
//! target inherits them, the task's input files, the file tree under the project's folder
//! when the task has input globs, and last, with the highest precedence, the touched files
//! among the task's inputs.
use vstd::prelude::*;
use crate::runner::{filter_touched_inputs, touched_inputs};
use crate::text::views;

verus! {

/// One step of hashing a target.
pub enum HashStep {
    /// Hash the identifiers of the projects the project depends on.
    ProjectDeps,
    /// Hash the task itself.
    Task,
    /// Hash the hashes of the task's dependencies, from the run's table of target hashes.
    TaskDeps,
    /// Hash these passed-through arguments.
    Args(Vec<String>),
    /// Hash these input files, by the hashes version control gives them.
    InputFiles(Vec<String>),
    /// Hash the files under this project folder, by the hashes of version control's file
    /// tree, keeping those that match the task's input globs.
    InputTree(String),
    /// Hash these touched files, by the hashes version control gives them.
    TouchedFiles(Vec<String>),
}

/// A hash step by the characters of its strings.
pub enum HashStepView {
    ProjectDeps,
    Task,
    TaskDeps,
    Args(Seq<Seq<char>>),
    InputFiles(Seq<Seq<char>>),
    InputTree(Seq<char>),
    TouchedFiles(Seq<Seq<char>>),
}

impl View for HashStep {
    type V = HashStepView;

    open spec fn view(&self) -> HashStepView {
        match self {
            HashStep::ProjectDeps => HashStepView::ProjectDeps,
            HashStep::Task => HashStepView::Task,
            HashStep::TaskDeps => HashStepView::TaskDeps,
            HashStep::Args(a) => HashStepView::Args(views(a@)),
            HashStep::InputFiles(f) => HashStepView::InputFiles(views(f@)),
            HashStep::InputTree(s) => HashStepView::InputTree(s@),
            HashStep::TouchedFiles(f) => HashStepView::TouchedFiles(views(f@)),
        }
    }
}

/// The steps by their views.
pub open spec fn step_views(p: Seq<HashStep>) -> Seq<HashStepView> {
    p.map_values(|h: HashStep| h@)
}

/// The steps of hashing a target, in order. The arguments are hashed only when inherited,
/// the input files only when there are some, the file tree only when the task has input
/// globs, and the touched inputs only when there are some, last.
pub open spec fn hash_steps(
    inherit_args: bool,
    passthrough_args: Seq<Seq<char>>,
    input_files: Seq<Seq<char>>,
    has_input_globs: bool,
    project_source: Seq<char>,
    touched: Seq<Seq<char>>,
) -> Seq<HashStepView> {
    seq![HashStepView::ProjectDeps, HashStepView::Task, HashStepView::TaskDeps]
        + (if inherit_args { seq![HashStepView::Args(passthrough_args)] } else { Seq::empty() })
        + (if input_files.len() > 0 { seq![HashStepView::InputFiles(input_files)] } else { Seq::empty() })
        + (if has_input_globs { seq![HashStepView::InputTree(project_source)] } else { Seq::empty() })
        + (if touched.len() > 0 { seq![HashStepView::TouchedFiles(touched)] } else { Seq::empty() })
}

fn copy_strings(v: &Vec<String>) -> (r: Vec<String>)
    ensures
        views(r@) == views(v@),
{
    let mut r: Vec<String> = Vec::new();
    let mut i: usize = 0;
    while i < v.len()
        invariant
            i <= v.len(),
            views(r@) == views(v@).take(i as int),
        decreases v.len() - i,
    {
        let ghost prev = r@;
        r.push(v[i].clone());
        assert(views(r@) =~= views(prev).push(v@[i as int]@));
        assert(views(v@).take(i + 1) =~= views(v@).take(i as int).push(v@[i as int]@));
        i = i + 1;
    }
    assert(views(v@).take(v.len() as int) =~= views(v@));
    r
}

/// Plans the hashing of a target: which steps are made, with what, in which order. The
/// touched files hashed are those not deleted whose path matches the task's inputs.
pub fn common_hasher_plan(
    inherit_args: bool,
    passthrough_args: &Vec<String>,
    input_files: &Vec<String>,
    has_input_globs: bool,
    project_source: &str,
    touched: &Vec<String>,
    deleted: &Vec<String>,
    matches: &Vec<bool>,
) -> (p: Vec<HashStep>)
    requires
        matches.len() == touched.len(),
    ensures
        step_views(p@) == hash_steps(
            inherit_args,
            views(passthrough_args@),
            views(input_files@),
            has_input_globs,
            project_source@,
            touched_inputs(views(touched@), views(deleted@), matches@),
        ),
{
    let mut p: Vec<HashStep> = Vec::new();
    p.push(HashStep::ProjectDeps);
    p.push(HashStep::Task);
    p.push(HashStep::TaskDeps);
    let ghost s0 = seq![HashStepView::ProjectDeps, HashStepView::Task, HashStepView::TaskDeps];
    assert(step_views(p@) =~= s0);
    let ghost mut acc = s0;
    if inherit_args {
        p.push(HashStep::Args(copy_strings(passthrough_args)));
        proof { acc = acc + seq![HashStepView::Args(views(passthrough_args@))]; }
    } else {
        proof { acc = acc + Seq::<HashStepView>::empty(); }
    }
    assert(step_views(p@) =~= acc);
    if input_files.len() > 0 {
        p.push(HashStep::InputFiles(copy_strings(input_files)));
        proof { acc = acc + seq![HashStepView::InputFiles(views(input_files@))]; }
    } else {
        proof { acc = acc + Seq::<HashStepView>::empty(); }
    }
    assert(step_views(p@) =~= acc);
    if has_input_globs {
        p.push(HashStep::InputTree(project_source.to_string()));
        proof { acc = acc + seq![HashStepView::InputTree(project_source@)]; }
    } else {
        proof { acc = acc + Seq::<HashStepView>::empty(); }
    }
    assert(step_views(p@) =~= acc);
    let files = filter_touched_inputs(touched, deleted, matches);
    if files.len() > 0 {
        let ghost fv = views(files@);
        p.push(HashStep::TouchedFiles(files));
        proof { acc = acc + seq![HashStepView::TouchedFiles(fv)]; }
    } else {
        proof { acc = acc + Seq::<HashStepView>::empty(); }
    }
    assert(step_views(p@) =~= acc);
    p
}

/// The touched files are hashed last, so that they take precedence over every other input.
pub proof fn law_touched_files_hashed_last(
    inherit_args: bool,
    passthrough_args: Seq<Seq<char>>,
    input_files: Seq<Seq<char>>,
    has_input_globs: bool,
    project_source: Seq<char>,
    touched: Seq<Seq<char>>,
)
    requires
        touched.len() > 0,
    ensures
        ({
            let s = hash_steps(inherit_args, passthrough_args, input_files, has_input_globs, project_source, touched);
            &&& s.last() == HashStepView::TouchedFiles(touched)
            &&& forall|i: int| 0 <= i < s.len() - 1 ==> !(#[trigger] s[i] is TouchedFiles)
        }),
{
}

}
