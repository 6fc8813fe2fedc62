//! Docker scaffolding: which projects a docker image focuses on, which manifest
//! and configuration files are copied, and how each listed file is copied.
use vstd::prelude::*;
use rustc_hash::FxHashSet;
use crate::fxcollections::{id_set, id_set_contains, id_set_insert, id_set_new};
use crate::config::{DepManagerFiles, NodePackageManager, TypeScriptConfig};
use crate::text::views;

verus! {

broadcast use vstd::seq_lib::group_seq_properties;

/// A project of the workspace as the scaffolding sees it.
pub struct ProjectNode {
    /// The project's identifier.
    pub id: String,
    /// The project's folder, relative to the workspace root.
    pub source: String,
    /// The identifiers of the projects it depends on.
    pub dependencies: Vec<String>,
}

/// The projects of a workspace.
pub struct ProjectGraph {
    pub projects: Vec<ProjectNode>,
}

/// Why scaffolding stopped.
#[derive(Debug)]
pub enum ScaffoldError {
    /// A requested project, or a dependency of one, is not in the graph.
    UnknownProject(String),
}

impl ProjectGraph {
    pub open spec fn id_at(&self, k: int) -> Seq<char> {
        self.projects@[k].id@
    }

    pub open spec fn source_at(&self, k: int) -> Seq<char> {
        self.projects@[k].source@
    }

    pub open spec fn deps_at(&self, k: int) -> Seq<Seq<char>> {
        views(self.projects@[k].dependencies@)
    }

    /// No two projects share an identifier.
    pub open spec fn wf(&self) -> bool {
        forall|i: int, j: int|
            0 <= i < self.projects.len() && 0 <= j < self.projects.len() && i != j
                ==> #[trigger] self.id_at(i) != #[trigger] self.id_at(j)
    }

    /// Whether a project has identifier `id`.
    pub open spec fn has(&self, id: Seq<char>) -> bool {
        exists|k: int| 0 <= k < self.projects.len() && #[trigger] self.id_at(k) == id
    }

    /// Whether project `a` depends on `b`.
    pub open spec fn edge(&self, a: Seq<char>, b: Seq<char>) -> bool {
        exists|k: int|
            0 <= k < self.projects.len() && #[trigger] self.id_at(k) == a && self.deps_at(k).contains(b)
    }

    /// `w` starts at one of `roots` and follows dependencies.
    pub open spec fn is_walk(&self, roots: Seq<Seq<char>>, w: Seq<Seq<char>>) -> bool {
        &&& w.len() > 0
        &&& roots.contains(w[0])
        &&& forall|i: int| 0 <= i < w.len() - 1 ==> self.edge(#[trigger] w[i], w[i + 1])
    }

    /// Whether `id` is one of `roots` or a dependency, direct or not, of one of them.
    pub open spec fn reachable(&self, roots: Seq<Seq<char>>, id: Seq<char>) -> bool {
        exists|w: Seq<Seq<char>>| #[trigger] self.is_walk(roots, w) && w.last() == id
    }

    /// `source` is the folder of a project reached from `roots`.
    pub open spec fn focused_source(&self, roots: Seq<Seq<char>>, source: Seq<char>) -> bool {
        exists|k: int|
            0 <= k < self.projects.len() && self.reachable(roots, #[trigger] self.id_at(k))
                && self.source_at(k) == source
    }

    /// `sources` holds the folder of every project reached from `roots`, and nothing else.
    pub open spec fn focused_sources(&self, roots: Seq<Seq<char>>, sources: Seq<Seq<char>>) -> bool {
        &&& forall|k: int| 0 <= k < self.projects.len() && self.reachable(roots, #[trigger] self.id_at(k))
                ==> sources.contains(self.source_at(k))
        &&& forall|i: int| 0 <= i < sources.len() ==> self.focused_source(roots, #[trigger] sources[i])
    }

    /// The index of the project with identifier `id`.
    pub fn find(&self, id: &str) -> (r: Option<usize>)
        ensures
            match r {
                Some(k) => k < self.projects.len() && self.id_at(k as int) == id@,
                None => !self.has(id@),
            },
    {
        let mut k: usize = 0;
        while k < self.projects.len()
            invariant
                k <= self.projects.len(),
                forall|t: int| 0 <= t < k ==> self.id_at(t) != id@,
            decreases self.projects.len() - k,
        {
            if crate::text::str_eq(self.projects[k].id.as_str(), id) {
                return Some(k);
            }
            k = k + 1;
        }
        None
    }
}

/// The number of `true` entries.
pub open spec fn count_true(s: Seq<bool>) -> nat
    decreases s.len(),
{
    if s.len() == 0 {
        0
    } else {
        count_true(s.drop_last()) + if s.last() { 1nat } else { 0nat }
    }
}

proof fn lemma_count_le(s: Seq<bool>)
    ensures
        count_true(s) <= s.len(),
    decreases s.len(),
{
    if s.len() > 0 {
        lemma_count_le(s.drop_last());
    }
}

proof fn lemma_count_set(s: Seq<bool>, k: int)
    requires
        0 <= k < s.len(),
        !s[k],
    ensures
        count_true(s.update(k, true)) == count_true(s) + 1,
    decreases s.len(),
{
    let t = s.update(k, true);
    if k == s.len() - 1 {
        assert(t.drop_last() =~= s.drop_last());
    } else {
        assert(t.drop_last() =~= s.drop_last().update(k, true));
        lemma_count_set(s.drop_last(), k);
    }
}

/// Whether a project listed in `order` has identifier `id`.
pub open spec fn listed(g: &ProjectGraph, order: Seq<usize>, id: Seq<char>) -> bool {
    exists|t: int| 0 <= t < order.len() && #[trigger] g.id_at(order[t] as int) == id
}

proof fn lemma_closed_walk(g: &ProjectGraph, roots: Seq<Seq<char>>, m: Set<Seq<char>>, w: Seq<Seq<char>>)
    requires
        g.is_walk(roots, w),
        forall|r: Seq<char>| roots.contains(r) ==> m.contains(r),
        forall|a: Seq<char>, b: Seq<char>| m.contains(a) && #[trigger] g.edge(a, b) ==> m.contains(b),
    ensures
        m.contains(w.last()),
    decreases w.len(),
{
    if w.len() > 1 {
        let v = w.drop_last();
        assert forall|i: int| 0 <= i < v.len() - 1 implies g.edge(#[trigger] v[i], v[i + 1]) by {
            assert(g.edge(w[i], w[i + 1]));
        }
        lemma_closed_walk(g, roots, m, v);
        assert(g.edge(w[w.len() - 2], w[w.len() - 1]));
    }
}

proof fn lemma_extend_walk(g: &ProjectGraph, roots: Seq<Seq<char>>, a: Seq<char>, k: int, b: Seq<char>)
    requires
        g.reachable(roots, a),
        0 <= k < g.projects.len(),
        g.id_at(k) == a,
        g.deps_at(k).contains(b),
    ensures
        g.reachable(roots, b),
{
    let w = choose|w: Seq<Seq<char>>| #[trigger] g.is_walk(roots, w) && w.last() == a;
    let w2 = w.push(b);
    assert(g.edge(a, b));
    assert forall|i: int| 0 <= i < w2.len() - 1 implies g.edge(#[trigger] w2[i], w2[i + 1]) by {
        if i < w.len() - 1 {
            assert(w2[i] == w[i] && w2[i + 1] == w[i + 1]);
        }
    }
    assert(g.is_walk(roots, w2));
}

proof fn lemma_root_reachable(g: &ProjectGraph, roots: Seq<Seq<char>>, r: Seq<char>)
    requires
        roots.contains(r),
    ensures
        g.reachable(roots, r),
{
    let w = seq![r];
    assert(g.is_walk(roots, w));
}

/// Pushes `items` last first, so that popping gives them back in their order.
fn push_all_reversed(stack: &mut Vec<String>, items: &Vec<String>)
    ensures
        final(stack).len() == old(stack).len() + items.len(),
        forall|i: int| 0 <= i < old(stack).len() ==> #[trigger] final(stack)@[i] == old(stack)@[i],
        forall|j: int| 0 <= j < items.len() ==>
            #[trigger] final(stack)@[old(stack).len() + j] == items@[items.len() - 1 - j],
{
    let ghost start = stack@;
    let mut j: usize = items.len();
    while j > 0
        invariant
            j <= items.len(),
            stack.len() == start.len() + (items.len() - j),
            forall|i: int| 0 <= i < start.len() ==> #[trigger] stack@[i] == start[i],
            forall|t: int| 0 <= t < items.len() - j ==>
                #[trigger] stack@[start.len() + t] == items@[items.len() - 1 - t],
        decreases j,
    {
        j = j - 1;
        stack.push(items[j].clone());
    }
}

/// Follows the dependencies of the requested projects, depth first and in the order
/// given, and lists, once each, the indices of every project reached.
///
/// Succeeds exactly when every project reached is in the graph; otherwise names one
/// that is not: the first requested project when it is missing.
pub fn collect_focused(g: &ProjectGraph, project_ids: &Vec<String>) -> (r: Result<Vec<usize>, ScaffoldError>)
    requires
        g.wf(),
    ensures
        r is Ok <==> (forall|id: Seq<char>| g.reachable(views(project_ids@), id) ==> g.has(id)),
        r matches Err(ScaffoldError::UnknownProject(id)) ==>
            g.reachable(views(project_ids@), id@) && !g.has(id@),
        project_ids.len() > 0 && !g.has(project_ids@[0]@) ==>
            (r matches Err(ScaffoldError::UnknownProject(id)) && id@ == project_ids@[0]@),
        r matches Ok(order) ==> {
            &&& order@.no_duplicates()
            &&& forall|t: int| 0 <= t < order.len() ==> #[trigger] order@[t] < g.projects.len()
            &&& forall|id: Seq<char>| #![trigger g.reachable(views(project_ids@), id)]
                    g.reachable(views(project_ids@), id) <==> listed(g, order@, id)
        },
{
    let ghost roots = views(project_ids@);
    let n = g.projects.len();
    let mut marked: Vec<bool> = Vec::new();
    while marked.len() < n
        invariant
            marked.len() <= n,
            forall|k: int| 0 <= k < marked.len() ==> !marked@[k],
        decreases n - marked.len(),
    {
        marked.push(false);
    }
    proof {
        assert(count_true(marked@) == 0) by {
            lemma_count_zero(marked@);
        }
    }
    let mut stack: Vec<String> = Vec::new();
    push_all_reversed(&mut stack, project_ids);
    proof {
        let n0 = project_ids.len() as int;
        assert forall|i: int| 0 <= i < stack.len() implies g.reachable(roots, #[trigger] stack@[i]@) by {
            assert(stack@[0 + i] == project_ids@[n0 - 1 - i]);
            assert(roots[n0 - 1 - i] == stack@[i]@);
            lemma_root_reachable(g, roots, roots[n0 - 1 - i]);
        }
        assert forall|r: Seq<char>| roots.contains(r) implies views(stack@).contains(r) by {
            let j = choose|j: int| 0 <= j < roots.len() && roots[j] == r;
            assert(stack@[0 + (n0 - 1 - j)] == project_ids@[j]);
            assert(views(stack@)[n0 - 1 - j] == r);
        }
    }
    proof {
        if project_ids.len() > 0 {
            let j = project_ids.len() - 1;
            assert(stack@[0 + j] == project_ids@[project_ids.len() - 1 - j]);
        }
    }
    let ghost mut started = false;
    let mut order: Vec<usize> = Vec::new();
    while stack.len() > 0
        invariant
            !started ==> stack.len() == project_ids.len() && (project_ids.len() > 0
                ==> stack@[stack.len() - 1]@ == project_ids@[0]@),
            started ==> project_ids.len() > 0 && g.has(project_ids@[0]@),
            g.wf(),
            roots == views(project_ids@),
            n == g.projects.len(),
            marked.len() == n,
            forall|k: int| 0 <= k < n ==> (#[trigger] marked@[k] <==> order@.contains(k as usize)),
            forall|t: int| 0 <= t < order.len() ==> #[trigger] order@[t] < n,
            order@.no_duplicates(),
            count_true(marked@) == order.len(),
            forall|t: int| 0 <= t < order.len() ==> g.reachable(roots, #[trigger] g.id_at(order@[t] as int)),
            forall|i: int| 0 <= i < stack.len() ==> g.reachable(roots, #[trigger] stack@[i]@),
            forall|r: Seq<char>| roots.contains(r) ==> listed(g, order@, r) || views(stack@).contains(r),
            forall|t: int, d: Seq<char>|
                0 <= t < order.len() && #[trigger] g.deps_at(order@[t] as int).contains(d)
                    ==> listed(g, order@, d) || views(stack@).contains(d),
        decreases n - order.len(), stack.len(),
    {
        proof {
            lemma_count_le(marked@);
        }
        let ghost before = stack@;
        let ghost first = !started;
        let id = stack.pop().unwrap();
        proof {
            assert(first ==> id@ == project_ids@[0]@);
            assert(before =~= stack@.push(id));
            assert(views(before) =~= views(stack@).push(id@));
            assert(g.reachable(roots, before[before.len() - 1]@));
        }
        match g.find(id.as_str()) {
            None => {
                return Err(ScaffoldError::UnknownProject(id));
            },
            Some(k) => {
                proof {
                    assert(g.has(id@));
                    started = true;
                }
                if marked[k] {
                    proof {
                        assert(order@.contains(k));
                        let t = choose|t: int| 0 <= t < order.len() && order@[t] == k;
                        assert(g.id_at(order@[t] as int) == id@);
                        assert(listed(g, order@, id@));
                    }
                } else {
                    let ghost old_order = order@;
                    let ghost old_marked = marked@;
                    proof {
                        lemma_count_set(marked@, k as int);
                    }
                    marked.set(k, true);
                    order.push(k);
                    let ghost mid = stack@;
                    push_all_reversed(&mut stack, &g.projects[k].dependencies);
                    proof {
                        let dn = g.deps_at(k as int).len() as int;
                        assert(g.reachable(roots, id@));
                        assert(order@[order.len() - 1] == k);
                        assert(listed(g, order@, id@));
                        assert forall|d: Seq<char>| listed(g, old_order, d) implies listed(g, order@, d) by {
                            let t = choose|t: int| 0 <= t < old_order.len() && #[trigger] g.id_at(old_order[t] as int) == d;
                            assert(order@[t] == old_order[t]);
                        }
                        assert forall|i: int| 0 <= i < stack.len() implies g.reachable(roots, #[trigger] stack@[i]@) by {
                            if i >= mid.len() {
                                let j = i - mid.len();
                                assert(stack@[mid.len() + j] == g.projects@[k as int].dependencies@[dn - 1 - j]);
                                assert(stack@[i]@ == g.deps_at(k as int)[dn - 1 - j]);
                                lemma_extend_walk(g, roots, id@, k as int, stack@[i]@);
                            } else {
                                assert(stack@[i] == mid[i]);
                            }
                        }
                        assert forall|kk: int| 0 <= kk < n implies (#[trigger] marked@[kk] <==> order@.contains(kk as usize)) by {
                            if kk != k {
                                assert(marked@[kk] == old_marked[kk]);
                                if old_order.contains(kk as usize) {
                                    let t = choose|t: int| 0 <= t < old_order.len() && old_order[t] == kk as usize;
                                    assert(order@[t] == kk as usize);
                                }
                                if order@.contains(kk as usize) {
                                    let t = choose|t: int| 0 <= t < order.len() && order@[t] == kk as usize;
                                    assert(t < old_order.len());
                                    assert(old_order[t] == kk as usize);
                                }
                            }
                        }
                        assert forall|t: int, d: Seq<char>|
                            0 <= t < order.len() && #[trigger] g.deps_at(order@[t] as int).contains(d)
                                implies listed(g, order@, d) || views(stack@).contains(d) by {
                            if t == order.len() - 1 {
                                let j = choose|j: int| 0 <= j < g.deps_at(k as int).len() && g.deps_at(k as int)[j] == d;
                                let q = dn - 1 - j;
                                assert(stack@[mid.len() + q] == g.projects@[k as int].dependencies@[dn - 1 - q]);
                                assert(views(stack@)[mid.len() + q] == d);
                            } else {
                                assert(order@[t] == old_order[t]);
                                if views(before).contains(d) && d != id@ {
                                    let j = choose|j: int| 0 <= j < views(before).len() && views(before)[j] == d;
                                    assert(j < mid.len());
                                    assert(views(stack@)[j] == d);
                                }
                            }
                        }
                        assert forall|r: Seq<char>| roots.contains(r) implies listed(g, order@, r) || views(stack@).contains(r) by {
                            if views(before).contains(r) && r != id@ {
                                let j = choose|j: int| 0 <= j < views(before).len() && views(before)[j] == r;
                                assert(j < mid.len());
                                assert(views(stack@)[j] == r);
                            }
                        }
                        assert(order@.no_duplicates()) by {
                            assert(!old_order.contains(k));
                        }
                    }
                }
            },
        }
        proof {
            lemma_count_le(marked@);
            assert forall|r: Seq<char>| roots.contains(r) implies listed(g, order@, r) || views(stack@).contains(r) by {
                if !listed(g, order@, r) && r != id@ {
                    assert(views(before).contains(r) || listed(g, order@, r));
                }
            }
        }
    }
    proof {
        let m = Set::new(|id: Seq<char>| listed(g, order@, id));
        assert forall|a: Seq<char>, b: Seq<char>| m.contains(a) && #[trigger] g.edge(a, b) implies m.contains(b) by {
            let t = choose|t: int| 0 <= t < order.len() && #[trigger] g.id_at(order@[t] as int) == a;
            let k = choose|k: int| 0 <= k < g.projects.len() && #[trigger] g.id_at(k) == a && g.deps_at(k).contains(b);
            assert(k == order@[t] as int);
            assert(g.deps_at(order@[t] as int).contains(b));
        }
        assert forall|id: Seq<char>| #![trigger g.reachable(roots, id)] g.reachable(roots, id) <==> listed(g, order@, id) by {
            if g.reachable(roots, id) {
                let w = choose|w: Seq<Seq<char>>| #[trigger] g.is_walk(roots, w) && w.last() == id;
                lemma_closed_walk(g, roots, m, w);
            }
            if listed(g, order@, id) {
                let t = choose|t: int| 0 <= t < order.len() && #[trigger] g.id_at(order@[t] as int) == id;
            }
        }
        assert forall|id: Seq<char>| g.reachable(roots, id) implies g.has(id) by {
            let t = choose|t: int| 0 <= t < order.len() && #[trigger] g.id_at(order@[t] as int) == id;
            assert(g.id_at(order@[t] as int) == id);
        }
    }
    Ok(order)
}

proof fn lemma_count_zero(s: Seq<bool>)
    requires
        forall|k: int| 0 <= k < s.len() ==> !s[k],
    ensures
        count_true(s) == 0,
    decreases s.len(),
{
    if s.len() > 0 {
        lemma_count_zero(s.drop_last());
    }
}

proof fn lemma_focused_sources(g: &ProjectGraph, roots: Seq<Seq<char>>, order: Seq<usize>, srcs: Seq<Seq<char>>)
    requires
        g.wf(),
        forall|u: int| 0 <= u < order.len() ==> srcs.contains(g.source_at(#[trigger] order[u] as int)),
        forall|u: int| 0 <= u < order.len() ==> #[trigger] order[u] < g.projects.len(),
        forall|id: Seq<char>| #![trigger g.reachable(roots, id)] g.reachable(roots, id) <==> listed(g, order, id),
        forall|i: int| 0 <= i < srcs.len() ==> g.focused_source(roots, #[trigger] srcs[i]),
    ensures
        g.focused_sources(roots, srcs),
{
    assert forall|k: int| 0 <= k < g.projects.len() && g.reachable(roots, #[trigger] g.id_at(k))
        implies srcs.contains(g.source_at(k)) by {
        let u = choose|u: int| 0 <= u < order.len() && #[trigger] g.id_at(order[u] as int) == g.id_at(k);
        if order[u] as int != k {
            assert(g.id_at(order[u] as int) != g.id_at(k));
        }
        assert(srcs.contains(g.source_at(order[u] as int)));
    }
}

/// Whether `s` is one of `v`.
fn contains_str(v: &Vec<String>, s: &str) -> (r: bool)
    ensures
        r == views(v@).contains(s@),
{
    let mut i: usize = 0;
    while i < v.len()
        invariant
            i <= v.len(),
            forall|t: int| 0 <= t < i ==> v@[t]@ != s@,
        decreases v.len() - i,
    {
        if crate::text::str_eq(v[i].as_str(), s) {
            assert(views(v@)[i as int] == s@);
            return true;
        }
        i = i + 1;
    }
    assert(!views(v@).contains(s@)) by {
        if views(v@).contains(s@) {
            let t = choose|t: int| 0 <= t < views(v@).len() && views(v@)[t] == s@;
            assert(v@[t]@ == s@);
        }
    }
    false
}

/// The projects a docker image is scaffolded for: those it is focused on, and the rest.
pub struct DockerManifest {
    pub focused_projects: FxHashSet<String>,
    pub unfocused_projects: FxHashSet<String>,
}

/// What scaffolding the sources of a docker image amounts to.
pub struct SourcesPlan {
    /// The manifest written beside the sources.
    pub manifest: DockerManifest,
    /// The project folders copied into the image, each once.
    pub sources: Vec<String>,
    /// The files matched by the include patterns, relative to the workspace root, copied
    /// into the image too.
    pub include_files: Vec<String>,
}

/// Plans the sources part of a docker scaffold: every requested project and every project
/// it depends on, directly or not, is focused and has its folder copied; every other
/// project of the graph is listed as unfocused.
///
/// The files that the include patterns matched, found under the workspace root, are copied
/// as well, by their paths relative to that root.
///
/// Succeeds exactly when every project so reached is in the graph; otherwise names one
/// that is not.
pub fn scaffold_sources(
    g: &ProjectGraph,
    project_ids: &Vec<String>,
    workspace_root: &str,
    include_matches: &Vec<String>,
) -> (r: Result<SourcesPlan, ScaffoldError>)
    requires
        g.wf(),
        forall|i: int| 0 <= i < include_matches.len()
            ==> crate::text::strip_root_spec(#[trigger] include_matches@[i]@, workspace_root@) is Some,
    ensures
        r is Ok <==> (forall|id: Seq<char>| g.reachable(views(project_ids@), id) ==> g.has(id)),
        r matches Err(ScaffoldError::UnknownProject(id)) ==>
            g.reachable(views(project_ids@), id@) && !g.has(id@),
        project_ids.len() > 0 && !g.has(project_ids@[0]@) ==>
            (r matches Err(ScaffoldError::UnknownProject(id)) && id@ == project_ids@[0]@),
        r matches Ok(plan) ==> id_set(plan.manifest.focused_projects)
            == Set::new(|id: Seq<char>| g.reachable(views(project_ids@), id)),
        r matches Ok(plan) ==> id_set(plan.manifest.unfocused_projects)
            == Set::new(|id: Seq<char>| g.has(id) && !g.reachable(views(project_ids@), id)),
        r matches Ok(plan) ==> g.focused_sources(views(project_ids@), views(plan.sources@)),
        r matches Ok(plan) ==> views(plan.sources@).no_duplicates(),
        r matches Ok(plan) ==> plan.include_files.len() == include_matches.len(),
        r matches Ok(plan) ==> forall|i: int| 0 <= i < include_matches.len() ==>
            Some(#[trigger] plan.include_files@[i]@)
                == crate::text::strip_root_spec(include_matches@[i]@, workspace_root@),
{
    let ghost roots = views(project_ids@);
    let order = match collect_focused(g, project_ids) {
        Ok(order) => order,
        Err(e) => {
            return Err(e);
        },
    };
    let mut focused = id_set_new();
    let mut sources: Vec<String> = Vec::new();
    let mut t: usize = 0;
    while t < order.len()
        invariant
            t <= order.len(),
            forall|u: int| 0 <= u < order.len() ==> #[trigger] order@[u] < g.projects.len(),
            g.wf(),
            roots == views(project_ids@),
            forall|id: Seq<char>| #![trigger g.reachable(roots, id)] g.reachable(roots, id) <==> listed(g, order@, id),
            id_set(focused) == Set::new(|id: Seq<char>| listed(g, order@.take(t as int), id)),
            views(sources@).no_duplicates(),
            forall|u: int| 0 <= u < t ==> views(sources@).contains(g.source_at(#[trigger] order@[u] as int)),
            forall|i: int| 0 <= i < sources.len() ==> g.focused_source(roots, #[trigger] views(sources@)[i]),
        decreases order.len() - t,
    {
        let k = order[t];
        id_set_insert(&mut focused, g.projects[k].id.clone());
        proof {
            assert(listed(g, order@, g.id_at(k as int)));
            assert(g.reachable(roots, g.id_at(k as int)));
        }
        if !contains_str(&sources, g.projects[k].source.as_str()) {
            let ghost prev = views(sources@);
            sources.push(g.projects[k].source.clone());
            proof {
                assert(views(sources@) =~= prev.push(g.source_at(k as int)));
                assert forall|u: int| 0 <= u < t implies views(sources@).contains(g.source_at(#[trigger] order@[u] as int)) by {
                    let j = choose|j: int| 0 <= j < prev.len() && prev[j] == g.source_at(order@[u] as int);
                    assert(views(sources@)[j] == prev[j]);
                }
                assert(views(sources@)[prev.len() as int] == g.source_at(k as int));
                assert forall|i: int| 0 <= i < sources.len() implies g.focused_source(roots, #[trigger] views(sources@)[i]) by {
                    if i < prev.len() {
                        assert(views(sources@)[i] == prev[i]);
                    }
                }
            }
        }
        proof {
            let a = order@.take(t as int);
            let b = order@.take(t + 1);
            assert forall|id: Seq<char>| listed(g, b, id) <==> listed(g, a, id) || id == g.id_at(k as int) by {
                if listed(g, a, id) {
                    let u = choose|u: int| 0 <= u < a.len() && #[trigger] g.id_at(a[u] as int) == id;
                    assert(b[u] == a[u]);
                }
                if id == g.id_at(k as int) {
                    assert(b[t as int] == k);
                }
                if listed(g, b, id) {
                    let u = choose|u: int| 0 <= u < b.len() && #[trigger] g.id_at(b[u] as int) == id;
                    if u < t {
                        assert(a[u] == b[u]);
                    }
                }
            }
            assert(id_set(focused) =~= Set::new(|id: Seq<char>| listed(g, b, id)));
        }
        t = t + 1;
    }
    proof {
        assert(order@.take(order.len() as int) =~= order@);
        assert(id_set(focused) =~= Set::new(|id: Seq<char>| g.reachable(roots, id)));
    }
    let mut unfocused = id_set_new();
    let mut k: usize = 0;
    while k < g.projects.len()
        invariant
            k <= g.projects.len(),
            id_set(focused) == Set::new(|id: Seq<char>| g.reachable(roots, id)),
            id_set(unfocused) == Set::new(|id: Seq<char>|
                (exists|j: int| 0 <= j < k && #[trigger] g.id_at(j) == id) && !g.reachable(roots, id)),
        decreases g.projects.len() - k,
    {
        let ghost prev = id_set(unfocused);
        if !id_set_contains(&focused, g.projects[k].id.as_str()) {
            id_set_insert(&mut unfocused, g.projects[k].id.clone());
        }
        proof {
            assert forall|id: Seq<char>| id_set(unfocused).contains(id) <==>
                ((exists|j: int| 0 <= j < k + 1 && #[trigger] g.id_at(j) == id) && !g.reachable(roots, id)) by {
                if id == g.id_at(k as int) {
                    assert(g.id_at(k as int) == id);
                }
                if exists|j: int| 0 <= j < k + 1 && #[trigger] g.id_at(j) == id {
                    let j = choose|j: int| 0 <= j < k + 1 && #[trigger] g.id_at(j) == id;
                    if j < k {
                        assert(exists|j: int| 0 <= j < k && #[trigger] g.id_at(j) == id);
                    }
                }
            }
            assert(id_set(unfocused) =~= Set::new(|id: Seq<char>|
                (exists|j: int| 0 <= j < k + 1 && #[trigger] g.id_at(j) == id) && !g.reachable(roots, id)));
        }
        k = k + 1;
    }
    proof {
        assert(id_set(unfocused) =~= Set::new(|id: Seq<char>| g.has(id) && !g.reachable(roots, id)));
    }
    proof {
        lemma_focused_sources(g, roots, order@, views(sources@));
    }
    let include_files = crate::text::relative_paths(workspace_root, include_matches);
    let plan = SourcesPlan {
        manifest: DockerManifest { focused_projects: focused, unfocused_projects: unfocused },
        sources,
        include_files,
    };
    Ok(plan)
}

/// The file names `postinstall.<ext>` for each extension.
pub open spec fn postinstall_names(exts: Seq<Seq<char>>) -> Seq<Seq<char>> {
    exts.map_values(|e: Seq<char>| "postinstall."@ + e)
}

/// The files copied from each project folder into the workspace skeleton: with Node.js
/// configured, the npm manifest and a `postinstall` script for each Node.js extension;
/// with TypeScript configured, the project's TypeScript configuration.
pub fn project_config_files(
    node_configured: bool,
    npm_manifest: &str,
    node_exts: &Vec<String>,
    typescript: &Option<TypeScriptConfig>,
) -> (files: Vec<String>)
    ensures
        views(files@) == (if node_configured {
            seq![npm_manifest@] + postinstall_names(views(node_exts@))
        } else {
            Seq::<Seq<char>>::empty()
        }) + match typescript {
            Some(ts) => seq![ts.project_config_file_name@],
            None => Seq::<Seq<char>>::empty(),
        },
{
    let mut files: Vec<String> = Vec::new();
    if node_configured {
        files.push(String::from_str(npm_manifest));
        let mut i: usize = 0;
        while i < node_exts.len()
            invariant
                i <= node_exts.len(),
                views(files@) == seq![npm_manifest@] + postinstall_names(views(node_exts@).take(i as int)),
            decreases node_exts.len() - i,
        {
            let mut name = String::from_str("postinstall.");
            name.append(node_exts[i].as_str());
            let ghost prev = files@;
            files.push(name);
            proof {
                assert(views(node_exts@).take(i + 1) =~= views(node_exts@).take(i as int).push(node_exts@[i as int]@));
                assert(views(files@) =~= views(prev).push(name@));
                assert(postinstall_names(views(node_exts@).take(i + 1)) =~= postinstall_names(views(node_exts@).take(i as int)).push("postinstall."@ + node_exts@[i as int]@));
            }
            i = i + 1;
        }
        assert(views(node_exts@).take(node_exts.len() as int) =~= views(node_exts@));
    }
    let ghost mid = files@;
    match typescript {
        Some(ts) => {
            files.push(ts.project_config_file_name.clone());
        },
        None => {},
    }
    assert(views(files@) =~= views(mid) + match typescript {
        Some(ts) => seq![ts.project_config_file_name@],
        None => Seq::<Seq<char>>::empty(),
    });
    files
}

/// The package manager's files among the three.
pub open spec fn chosen_files<'a>(
    pm: NodePackageManager,
    npm: &'a DepManagerFiles,
    pnpm: &'a DepManagerFiles,
    yarn: &'a DepManagerFiles,
) -> &'a DepManagerFiles {
    match pm {
        NodePackageManager::Npm => npm,
        NodePackageManager::Pnpm => pnpm,
        NodePackageManager::Yarn => yarn,
    }
}

/// The files copied from the workspace root into the workspace skeleton: with Node.js
/// configured, the chosen package manager's manifest, lockfile and configuration files;
/// with TypeScript configured, the root TypeScript configuration and its options file.
pub fn root_config_files(
    node: Option<NodePackageManager>,
    npm: &DepManagerFiles,
    pnpm: &DepManagerFiles,
    yarn: &DepManagerFiles,
    typescript: &Option<TypeScriptConfig>,
) -> (files: Vec<String>)
    ensures
        views(files@) == match node {
            Some(pm) => {
                let f = chosen_files(pm, npm, pnpm, yarn);
                seq![f.manifest@, f.lockfile@] + views(f.config_files@)
            },
            None => Seq::<Seq<char>>::empty(),
        } + match typescript {
            Some(ts) => seq![ts.root_config_file_name@, ts.root_options_config_file_name@],
            None => Seq::<Seq<char>>::empty(),
        },
        node == Some(NodePackageManager::Npm) ==> views(files@).take(2 + npm.config_files.len())
            == seq![npm.manifest@, npm.lockfile@] + views(npm.config_files@),
        node == Some(NodePackageManager::Pnpm) ==> views(files@).take(2 + pnpm.config_files.len())
            == seq![pnpm.manifest@, pnpm.lockfile@] + views(pnpm.config_files@),
        node == Some(NodePackageManager::Yarn) ==> views(files@).take(2 + yarn.config_files.len())
            == seq![yarn.manifest@, yarn.lockfile@] + views(yarn.config_files@),
{
    let mut files: Vec<String> = Vec::new();
    match node {
        Some(pm) => {
            let f = match pm {
                NodePackageManager::Npm => npm,
                NodePackageManager::Pnpm => pnpm,
                NodePackageManager::Yarn => yarn,
            };
            files.push(f.manifest.clone());
            files.push(f.lockfile.clone());
            let mut i: usize = 0;
            while i < f.config_files.len()
                invariant
                    i <= f.config_files.len(),
                    views(files@) == seq![f.manifest@, f.lockfile@] + views(f.config_files@).take(i as int),
                decreases f.config_files.len() - i,
            {
                let ghost prev = files@;
                files.push(f.config_files[i].clone());
                assert(views(files@) =~= views(prev).push(f.config_files@[i as int]@));
                assert(views(f.config_files@).take(i + 1) =~= views(f.config_files@).take(i as int).push(f.config_files@[i as int]@));
                i = i + 1;
            }
            assert(views(f.config_files@).take(f.config_files.len() as int) =~= views(f.config_files@));
        },
        None => {},
    }
    let ghost mid = files@;
    match typescript {
        Some(ts) => {
            files.push(ts.root_config_file_name.clone());
            files.push(ts.root_options_config_file_name.clone());
        },
        None => {},
    }
    assert(views(files@) =~= views(mid) + match typescript {
        Some(ts) => seq![ts.root_config_file_name@, ts.root_options_config_file_name@],
        None => Seq::<Seq<char>>::empty(),
    });
    files
}

/// Each package manager's own files are the ones copied from the root: npm's for npm,
/// pnpm's for pnpm and yarn's for yarn.
pub proof fn law_root_files_follow_the_package_manager(
    npm: &DepManagerFiles,
    pnpm: &DepManagerFiles,
    yarn: &DepManagerFiles,
)
    ensures
        chosen_files(NodePackageManager::Npm, npm, pnpm, yarn) == npm,
        chosen_files(NodePackageManager::Pnpm, npm, pnpm, yarn) == pnpm,
        chosen_files(NodePackageManager::Yarn, npm, pnpm, yarn) == yarn,
{
}

/// How one listed file is copied into the skeleton.
#[derive(PartialEq, Eq, Structural, Clone, Copy, Debug)]
pub enum CopyAction {
    /// The file does not exist in the source folder: nothing is copied.
    Skip,
    /// It is a folder: copied with everything in it.
    CopyDir,
    /// It is a file: copied alone.
    CopyFile,
}

/// How a listed path is copied, given whether it exists and whether it is a folder.
pub fn copy_action(exists: bool, is_dir: bool) -> (a: CopyAction)
    ensures
        a == (if !exists {
            CopyAction::Skip
        } else if is_dir {
            CopyAction::CopyDir
        } else {
            CopyAction::CopyFile
        }),
{
    if exists {
        if is_dir {
            CopyAction::CopyDir
        } else {
            CopyAction::CopyFile
        }
    } else {
        CopyAction::Skip
    }
}

/// Focusing is closed under dependencies: a project that a focused project depends on is
/// focused too.
pub proof fn law_focus_closed_under_dependencies(g: &ProjectGraph, roots: Seq<Seq<char>>, a: Seq<char>, b: Seq<char>)
    requires
        g.reachable(roots, a),
        g.edge(a, b),
    ensures
        g.reachable(roots, b),
{
    let k = choose|k: int| 0 <= k < g.projects.len() && #[trigger] g.id_at(k) == a && g.deps_at(k).contains(b);
    lemma_extend_walk(g, roots, a, k, b);
}

/// Every requested project is focused.
pub proof fn law_requested_projects_focused(g: &ProjectGraph, roots: Seq<Seq<char>>, r: Seq<char>)
    requires
        roots.contains(r),
    ensures
        g.reachable(roots, r),
{
    lemma_root_reachable(g, roots, r);
}

/// The focused and unfocused projects of a manifest split the graph: together they are
/// every project, and none is both.
pub proof fn law_manifest_partitions_graph(g: &ProjectGraph, roots: Seq<Seq<char>>)
    requires
        forall|id: Seq<char>| g.reachable(roots, id) ==> g.has(id),
    ensures
        Set::new(|id: Seq<char>| g.reachable(roots, id)) + Set::new(|id: Seq<char>| g.has(id) && !g.reachable(roots, id))
            == Set::new(|id: Seq<char>| g.has(id)),
        Set::new(|id: Seq<char>| g.reachable(roots, id)).disjoint(Set::new(|id: Seq<char>| g.has(id) && !g.reachable(roots, id))),
{
    assert(Set::new(|id: Seq<char>| g.reachable(roots, id)) + Set::new(|id: Seq<char>| g.has(id) && !g.reachable(roots, id))
        =~= Set::new(|id: Seq<char>| g.has(id)));
}

}
