//! Paths as sequences of components, as `std::path` reads them: separators are `/`,
//! repeated separators and `.` segments inside a path are not components, a leading `/`
//! is the root component and a leading `.` the current-folder component. Paths are ordered
//! and compared by their components.
use vstd::prelude::*;
use crate::text::views;

verus! {

broadcast use vstd::seq_lib::group_seq_properties;

/// The text between separators, in order, including empty pieces.
pub open spec fn segments(s: Seq<char>) -> Seq<Seq<char>>
    decreases s.len(),
{
    if s.len() == 0 {
        seq![Seq::<char>::empty()]
    } else if s.last() == '/' {
        segments(s.drop_last()).push(Seq::<char>::empty())
    } else {
        let r = segments(s.drop_last());
        r.update(r.len() - 1, r.last().push(s.last()))
    }
}

/// A component: its kind (0 the root, 1 the current folder, 2 the parent folder,
/// 3 a name) and its text.
pub type Component = (int, Seq<char>);

/// The component a segment stands for, if any; `first` says it is the path's first segment.
pub open spec fn component_of(seg: Seq<char>, first: bool) -> Option<Component> {
    if seg.len() == 0 {
        if first { Some((0, seg)) } else { None }
    } else if seg.len() == 1 && seg[0] == '.' {
        if first { Some((1, seg)) } else { None }
    } else if seg.len() == 2 && seg[0] == '.' && seg[1] == '.' {
        Some((2, seg))
    } else {
        Some((3, seg))
    }
}

/// The components of the first `n` segments.
pub open spec fn components_upto(segs: Seq<Seq<char>>, n: int) -> Seq<Component>
    decreases n,
{
    if n <= 0 {
        Seq::empty()
    } else {
        let r = components_upto(segs, n - 1);
        match component_of(segs[n - 1], n - 1 == 0) {
            Some(c) => r.push(c),
            None => r,
        }
    }
}

/// The components of a path.
pub open spec fn components(s: Seq<char>) -> Seq<Component> {
    if s.len() == 0 {
        Seq::empty()
    } else {
        components_upto(segments(s), segments(s).len() as int)
    }
}

proof fn lemma_components_upto_prefix(segs: Seq<Seq<char>>, extra: Seq<char>, n: int)
    requires
        0 <= n <= segs.len(),
    ensures
        components_upto(segs.push(extra), n) == components_upto(segs, n),
    decreases n,
{
    if n > 0 {
        lemma_components_upto_prefix(segs, extra, n - 1);
        assert(segs.push(extra)[n - 1] == segs[n - 1]);
    }
}

/// Whether name `a` comes no later than name `b`, character by character.
pub open spec fn text_le(a: Seq<char>, b: Seq<char>) -> bool
    decreases a.len(),
{
    if a.len() == 0 {
        true
    } else if b.len() == 0 {
        false
    } else if a[0] != b[0] {
        a[0] < b[0]
    } else {
        text_le(a.drop_first(), b.drop_first())
    }
}

proof fn lemma_text_total(a: Seq<char>, b: Seq<char>)
    ensures
        text_le(a, b) || text_le(b, a),
    decreases a.len(),
{
    if a.len() > 0 && b.len() > 0 && a[0] == b[0] {
        lemma_text_total(a.drop_first(), b.drop_first());
    }
}

proof fn lemma_text_trans(a: Seq<char>, b: Seq<char>, c: Seq<char>)
    requires
        text_le(a, b),
        text_le(b, c),
    ensures
        text_le(a, c),
    decreases a.len(),
{
    if a.len() > 0 && b.len() > 0 && c.len() > 0 && a[0] == b[0] && b[0] == c[0] {
        lemma_text_trans(a.drop_first(), b.drop_first(), c.drop_first());
    }
}

proof fn lemma_text_antisym(a: Seq<char>, b: Seq<char>)
    requires
        text_le(a, b),
        text_le(b, a),
    ensures
        a == b,
    decreases a.len(),
{
    if a.len() > 0 && b.len() > 0 {
        lemma_text_antisym(a.drop_first(), b.drop_first());
        assert(a =~= seq![a[0]] + a.drop_first());
        assert(b =~= seq![b[0]] + b.drop_first());
    }
}

/// Whether component `a` comes before component `b`: by kind, then by text.
pub open spec fn component_lt(a: Component, b: Component) -> bool {
    a.0 < b.0 || (a.0 == b.0 && a.1 != b.1 && text_le(a.1, b.1))
}

proof fn lemma_component_trichotomy(a: Component, b: Component)
    ensures
        a == b || component_lt(a, b) || component_lt(b, a),
{
    if a.0 == b.0 && a.1 != b.1 {
        lemma_text_total(a.1, b.1);
    }
}

proof fn lemma_component_asym(a: Component, b: Component)
    requires
        component_lt(a, b),
    ensures
        !component_lt(b, a),
        a != b,
{
    if a.0 == b.0 && component_lt(b, a) {
        lemma_text_antisym(a.1, b.1);
    }
}

proof fn lemma_component_trans(a: Component, b: Component, c: Component)
    requires
        component_lt(a, b),
        component_lt(b, c),
    ensures
        component_lt(a, c),
{
    if a.0 == b.0 && b.0 == c.0 {
        lemma_text_trans(a.1, b.1, c.1);
        if a.1 == c.1 {
            lemma_text_antisym(a.1, b.1);
        }
    }
}

/// Whether the components `x` come no later than `y`, component by component.
pub open spec fn components_le(x: Seq<Component>, y: Seq<Component>) -> bool
    decreases x.len(),
{
    if x.len() == 0 {
        true
    } else if y.len() == 0 {
        false
    } else if x[0] != y[0] {
        component_lt(x[0], y[0])
    } else {
        components_le(x.drop_first(), y.drop_first())
    }
}

/// Whether path `a` comes no later than path `b` in the order of `std::path`.
pub open spec fn path_le(a: Seq<char>, b: Seq<char>) -> bool {
    components_le(components(a), components(b))
}

proof fn lemma_components_total(x: Seq<Component>, y: Seq<Component>)
    ensures
        components_le(x, y) || components_le(y, x),
    decreases x.len(),
{
    if x.len() > 0 && y.len() > 0 {
        if x[0] == y[0] {
            lemma_components_total(x.drop_first(), y.drop_first());
        } else {
            lemma_component_trichotomy(x[0], y[0]);
        }
    }
}

proof fn lemma_components_trans(x: Seq<Component>, y: Seq<Component>, z: Seq<Component>)
    requires
        components_le(x, y),
        components_le(y, z),
    ensures
        components_le(x, z),
    decreases x.len(),
{
    if x.len() > 0 && y.len() > 0 && z.len() > 0 {
        if x[0] == y[0] && y[0] == z[0] {
            lemma_components_trans(x.drop_first(), y.drop_first(), z.drop_first());
        } else if x[0] == y[0] {
            lemma_component_asym(y[0], z[0]);
        } else if y[0] == z[0] {
            lemma_component_asym(x[0], y[0]);
        } else {
            lemma_component_trans(x[0], y[0], z[0]);
            lemma_component_asym(x[0], z[0]);
        }
    }
}

/// Any two paths are ordered one way or the other.
pub proof fn lemma_path_le_total(a: Seq<char>, b: Seq<char>)
    ensures
        path_le(a, b) || path_le(b, a),
{
    lemma_components_total(components(a), components(b));
}

/// The path order is transitive.
pub proof fn lemma_path_le_trans(a: Seq<char>, b: Seq<char>, c: Seq<char>)
    requires
        path_le(a, b),
        path_le(b, c),
    ensures
        path_le(a, c),
{
    lemma_components_trans(components(a), components(b), components(c));
}

proof fn lemma_components_refl(x: Seq<Component>)
    ensures
        components_le(x, x),
    decreases x.len(),
{
    if x.len() > 0 {
        lemma_components_refl(x.drop_first());
    }
}

proof fn lemma_components_antisym(x: Seq<Component>, y: Seq<Component>)
    requires
        components_le(x, y),
        components_le(y, x),
    ensures
        x == y,
    decreases x.len(),
{
    if x.len() > 0 && y.len() > 0 {
        if x[0] == y[0] {
            lemma_components_antisym(x.drop_first(), y.drop_first());
            assert(x =~= seq![x[0]] + x.drop_first());
            assert(y =~= seq![y[0]] + y.drop_first());
        } else {
            lemma_component_asym(x[0], y[0]);
        }
    }
}

/// Paths with the same components are ordered both ways.
pub proof fn lemma_path_le_reflexive(a: Seq<char>, b: Seq<char>)
    requires
        same_path(a, b),
    ensures
        path_le(a, b),
{
    lemma_components_refl(components(a));
}

/// Paths ordered both ways have the same components.
pub proof fn lemma_path_le_antisymmetric(a: Seq<char>, b: Seq<char>)
    requires
        path_le(a, b),
        path_le(b, a),
    ensures
        same_path(a, b),
{
    lemma_components_antisym(components(a), components(b));
}

/// A component as computed: its kind and its characters.
pub open spec fn comp_view(c: (u8, Vec<char>)) -> Component {
    (c.0 as int, c.1@)
}

/// The components as computed.
pub open spec fn comps_view(v: Seq<(u8, Vec<char>)>) -> Seq<Component> {
    v.map_values(|c: (u8, Vec<char>)| comp_view(c))
}

fn push_component(out: &mut Vec<(u8, Vec<char>)>, seg: Vec<char>, first: bool)
    ensures
        comps_view(final(out)@) == match component_of(seg@, first) {
            Some(c) => comps_view(old(out)@).push(c),
            None => comps_view(old(out)@),
        },
{
    let kind: u8 = if seg.len() == 0 {
        if first { 0 } else { 4 }
    } else if seg.len() == 1 && seg[0] == '.' {
        if first { 1 } else { 4 }
    } else if seg.len() == 2 && seg[0] == '.' && seg[1] == '.' {
        2
    } else {
        3
    };
    if kind != 4 {
        let ghost prev = out@;
        out.push((kind, seg));
        assert(comps_view(out@) =~= comps_view(prev).push(comp_view(out@[out.len() - 1])));
    }
}

/// The components of a path.
pub fn path_components(path: &str) -> (r: Vec<(u8, Vec<char>)>)
    ensures
        comps_view(r@) == components(path@),
{
    let chars = crate::text::chars_of(path);
    let mut out: Vec<(u8, Vec<char>)> = Vec::new();
    if chars.len() == 0 {
        assert(comps_view(out@) =~= Seq::<Component>::empty());
        return out;
    }
    let mut cur: Vec<char> = Vec::new();
    let mut k: usize = 0;
    let ghost mut done: Seq<Seq<char>> = Seq::empty();
    let mut i: usize = 0;
    while i < chars.len()
        invariant
            chars@ == path@,
            i <= chars.len(),
            segments(chars@.take(i as int)) == done.push(cur@),
            done.len() == k,
            k <= i,
            comps_view(out@) == components_upto(done, k as int),
        decreases chars.len() - i,
    {
        let c = chars[i];
        proof {
            assert(chars@.take(i + 1).drop_last() =~= chars@.take(i as int));
            assert(chars@.take(i + 1).last() == c);
        }
        if c == '/' {
            let seg = cur;
            cur = Vec::new();
            let ghost sv = seg@;
            push_component(&mut out, seg, k == 0);
            proof {
                lemma_components_upto_prefix(done, sv, k as int);
                done = done.push(sv);
                assert(done[k as int] == sv);
                assert(segments(chars@.take(i + 1)) =~= done.push(cur@));
            }
            k = k + 1;
        } else {
            let ghost before = cur@;
            cur.push(c);
            proof {
                assert(segments(chars@.take(i + 1)) =~= done.push(before).update(k as int, before.push(c)));
                assert(done.push(before).update(k as int, before.push(c)) =~= done.push(cur@));
            }
        }
        i = i + 1;
    }
    let ghost last = cur@;
    push_component(&mut out, cur, k == 0);
    proof {
        assert(chars@.take(chars.len() as int) =~= chars@);
        lemma_components_upto_prefix(done, last, k as int);
        assert(done.push(last)[k as int] == last);
        assert(segments(path@).len() == k + 1);
    }
    out
}

fn same_text(a: &Vec<char>, b: &Vec<char>) -> (r: bool)
    ensures
        r == (a@ == b@),
{
    if a.len() != b.len() {
        return false;
    }
    let mut i: usize = 0;
    while i < a.len()
        invariant
            a.len() == b.len(),
            i <= a.len(),
            forall|t: int| 0 <= t < i ==> a@[t] == b@[t],
        decreases a.len() - i,
    {
        if a[i] != b[i] {
            return false;
        }
        i = i + 1;
    }
    assert(a@ =~= b@);
    true
}

fn text_le_exec(a: &Vec<char>, b: &Vec<char>) -> (r: bool)
    ensures
        r == text_le(a@, b@),
{
    let mut i: usize = 0;
    while i < a.len() && i < b.len()
        invariant
            i <= a.len(),
            i <= b.len(),
            text_le(a@, b@) == text_le(a@.skip(i as int), b@.skip(i as int)),
        decreases a.len() - i,
    {
        assert(a@.skip(i as int)[0] == a@[i as int]);
        assert(b@.skip(i as int)[0] == b@[i as int]);
        if a[i] != b[i] {
            return a[i] < b[i];
        }
        assert(a@.skip(i as int).drop_first() =~= a@.skip(i + 1));
        assert(b@.skip(i as int).drop_first() =~= b@.skip(i + 1));
        i = i + 1;
    }
    i == a.len()
}

fn same_component(a: &(u8, Vec<char>), b: &(u8, Vec<char>)) -> (r: bool)
    ensures
        r == (comp_view(*a) == comp_view(*b)),
{
    a.0 == b.0 && same_text(&a.1, &b.1)
}

/// Compares two paths component by component, as `std::path` orders them.
pub fn paths_le(a: &str, b: &str) -> (r: bool)
    ensures
        r == path_le(a@, b@),
{
    let x = path_components(a);
    let y = path_components(b);
    let ghost xs = comps_view(x@);
    let ghost ys = comps_view(y@);
    let mut i: usize = 0;
    while i < x.len() && i < y.len()
        invariant
            xs == comps_view(x@),
            ys == comps_view(y@),
            xs == components(a@),
            ys == components(b@),
            i <= x.len(),
            i <= y.len(),
            path_le(a@, b@) == components_le(xs.skip(i as int), ys.skip(i as int)),
        decreases x.len() - i,
    {
        assert(xs.skip(i as int)[0] == comp_view(x@[i as int]));
        assert(ys.skip(i as int)[0] == comp_view(y@[i as int]));
        if !same_component(&x[i], &y[i]) {
            let kx = x[i].0;
            let ky = y[i].0;
            if kx != ky {
                return kx < ky;
            }
            return text_le_exec(&x[i].1, &y[i].1);
        }
        assert(xs.skip(i as int).drop_first() =~= xs.skip(i + 1));
        assert(ys.skip(i as int).drop_first() =~= ys.skip(i + 1));
        i = i + 1;
    }
    i == x.len()
}

/// Whether two paths have the same components, as `std::path` compares them.
pub open spec fn same_path(a: Seq<char>, b: Seq<char>) -> bool {
    components(a) == components(b)
}

/// Tests whether two paths have the same components.
pub fn paths_eq(a: &str, b: &str) -> (r: bool)
    ensures
        r == same_path(a@, b@),
{
    let x = path_components(a);
    let y = path_components(b);
    if x.len() != y.len() {
        assert(comps_view(x@).len() != comps_view(y@).len());
        return false;
    }
    let mut i: usize = 0;
    while i < x.len()
        invariant
            comps_view(x@) == components(a@),
            comps_view(y@) == components(b@),
            x.len() == y.len(),
            i <= x.len(),
            forall|t: int| 0 <= t < i ==> comp_view(x@[t]) == comp_view(y@[t]),
        decreases x.len() - i,
    {
        if !same_component(&x[i], &y[i]) {
            assert(comps_view(x@)[i as int] != comps_view(y@)[i as int]);
            return false;
        }
        i = i + 1;
    }
    assert(comps_view(x@) =~= comps_view(y@));
    true
}

/// Whether the last components of `path` are the components of `child`.
pub open spec fn ends_with_path(path: Seq<char>, child: Seq<char>) -> bool {
    let p = components(path);
    let c = components(child);
    c.len() <= p.len() && p.subrange(p.len() - c.len(), p.len() as int) == c
}

/// Tests whether `path` ends with the whole components of `child`.
pub fn path_ends_with(path: &str, child: &str) -> (r: bool)
    ensures
        r == ends_with_path(path@, child@),
{
    let p = path_components(path);
    let c = path_components(child);
    if c.len() > p.len() {
        return false;
    }
    let off = p.len() - c.len();
    let ghost ps = comps_view(p@);
    let ghost cs = comps_view(c@);
    let mut i: usize = 0;
    while i < c.len()
        invariant
            ps == comps_view(p@),
            cs == comps_view(c@),
            ps == components(path@),
            cs == components(child@),
            c.len() <= p.len(),
            ps.len() == p.len(),
            cs.len() == c.len(),
            off == p.len() - c.len(),
            i <= c.len(),
            forall|t: int| 0 <= t < i ==> ps[off + t] == cs[t],
        decreases c.len() - i,
    {
        if !same_component(&p[off + i], &c[i]) {
            assert(ps.subrange(off as int, p.len() as int)[i as int] != cs[i as int]);
            return false;
        }
        i = i + 1;
    }
    assert(ps.subrange(off as int, p.len() as int) =~= cs);
    true
}

/// Whether the paths are in the order of `std::path`.
pub open spec fn paths_sorted(s: Seq<Seq<char>>) -> bool {
    forall|i: int, j: int| 0 <= i < j < s.len() ==> path_le(#[trigger] s[i], #[trigger] s[j])
}

proof fn lemma_insert_multiset(s: Seq<String>, i: int, x: String)
    requires
        0 <= i <= s.len(),
    ensures
        s.insert(i, x).to_multiset() =~= s.to_multiset().insert(x),
{
    broadcast use vstd::seq_lib::lemma_multiset_commutative;
    let a = s.subrange(0, i);
    let b = s.subrange(i, s.len() as int);
    assert(s =~= a + b);
    a.to_multiset_ensures();
    assert(s.insert(i, x) =~= a.push(x) + b);
}

proof fn lemma_take_push_multiset(v: Seq<String>, i: int)
    requires
        0 <= i < v.len(),
    ensures
        v.take(i + 1).to_multiset() =~= v.take(i).to_multiset().insert(v[i]),
{
    assert(v.take(i + 1) =~= v.take(i).push(v[i]));
    v.take(i).to_multiset_ensures();
}

proof fn lemma_sorted_insert(s: Seq<Seq<char>>, p: int, x: Seq<char>)
    requires
        0 <= p <= s.len(),
        paths_sorted(s),
        forall|k: int| 0 <= k < p ==> path_le(#[trigger] s[k], x),
        p < s.len() ==> path_le(x, s[p]),
    ensures
        paths_sorted(s.insert(p, x)),
{
    let t = s.insert(p, x);
    assert forall|a: int, b: int| 0 <= a < b < t.len() implies path_le(#[trigger] t[a], #[trigger] t[b]) by {
        if b < p {
            assert(t[a] == s[a] && t[b] == s[b]);
        } else if b == p {
            assert(t[a] == s[a]);
        } else if a < p {
            assert(t[a] == s[a] && t[b] == s[b - 1]);
            if b - 1 > p {
                assert(path_le(s[p], s[b - 1]));
                lemma_path_le_trans(x, s[p], s[b - 1]);
            }
            lemma_path_le_trans(s[a], x, s[b - 1]);
        } else if a == p {
            assert(t[b] == s[b - 1]);
            if b - 1 > p {
                assert(path_le(s[p], s[b - 1]));
                lemma_path_le_trans(x, s[p], s[b - 1]);
            }
        } else {
            assert(t[a] == s[a - 1] && t[b] == s[b - 1]);
        }
    }
}

/// Sorts paths into the order of `std::path`, keeping every entry.
#[verifier::rlimit(40)]
pub fn sort_paths(v: Vec<String>) -> (r: Vec<String>)
    ensures
        paths_sorted(views(r@)),
        r@.to_multiset() == v@.to_multiset(),
{
    let mut out: Vec<String> = Vec::new();
    let mut i: usize = 0;
    while i < v.len()
        invariant
            i <= v.len(),
            paths_sorted(views(out@)),
            out@.to_multiset() == v@.take(i as int).to_multiset(),
        decreases v.len() - i,
    {
        let x = v[i].clone();
        let mut p: usize = 0;
        while p < out.len() && paths_le(out[p].as_str(), x.as_str())
            invariant
                p <= out.len(),
                forall|k: int| 0 <= k < p ==> path_le(#[trigger] out@[k]@, x@),
            decreases out.len() - p,
        {
            p = p + 1;
        }
        proof {
            if p < out.len() {
                lemma_path_le_total(out@[p as int]@, x@);
            }
            lemma_sorted_insert(views(out@), p as int, x@);
            assert(views(out@.insert(p as int, x)) =~= views(out@).insert(p as int, x@));
            lemma_insert_multiset(out@, p as int, x);
            lemma_take_push_multiset(v@, i as int);
        }
        out.insert(p, x);
        i = i + 1;
    }
    assert(v@.take(v.len() as int) =~= v@);
    out
}

}
