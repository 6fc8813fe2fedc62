//! Text helpers over the characters of strings: joining, decimal numbers, joining a
//! path onto a root and making paths relative to one.
use vstd::prelude::*;
use vstd::string::StrSliceExecFns;

verus! {

broadcast use vstd::seq_lib::group_seq_properties;

/// The characters of each string, in order.
pub open spec fn views(v: Seq<String>) -> Seq<Seq<char>> {
    v.map_values(|s: String| s@)
}

/// The characters of an optional string.
pub open spec fn opt_view(o: Option<String>) -> Option<Seq<char>> {
    match o {
        Some(s) => Some(s@),
        None => None,
    }
}

/// `parts` written one after the other with `sep` between neighbours.
pub open spec fn joined(parts: Seq<Seq<char>>, sep: Seq<char>) -> Seq<char>
    decreases parts.len(),
{
    if parts.len() == 0 {
        Seq::empty()
    } else if parts.len() == 1 {
        parts[0]
    } else {
        joined(parts.drop_last(), sep) + sep + parts.last()
    }
}

/// The characters of `s`, in order.
pub fn chars_of(s: &str) -> (v: Vec<char>)
    ensures
        v@ == s@,
{
    let mut v: Vec<char> = Vec::new();
    for c in it: s.chars()
        invariant
            v@ == it.seq().take(it.index() as int),
            it.seq() == s@,
    {
        v.push(c);
    }
    v
}

/// Whether two strings hold the same characters.
pub fn str_eq(a: &str, b: &str) -> (r: bool)
    ensures
        r == (a@ == b@),
{
    let x = chars_of(a);
    let y = chars_of(b);
    if x.len() != y.len() {
        return false;
    }
    let mut i: usize = 0;
    while i < x.len()
        invariant
            x@ == a@,
            y@ == b@,
            x.len() == y.len(),
            i <= x.len(),
            forall|k: int| 0 <= k < i ==> x@[k] == y@[k],
        decreases x.len() - i,
    {
        if x[i] != y[i] {
            return false;
        }
        i = i + 1;
    }
    assert(x@ =~= y@);
    true
}

/// Joins the strings of `parts`, putting `sep` between neighbours.
pub fn join_strings(parts: &Vec<String>, sep: &str) -> (r: String)
    ensures
        r@ == joined(views(parts@), sep@),
{
    let mut r = String::new();
    let ghost all = views(parts@);
    let mut i: usize = 0;
    while i < parts.len()
        invariant
            all == views(parts@),
            i <= parts.len(),
            r@ == joined(all.take(i as int), sep@),
        decreases parts.len() - i,
    {
        assert(all.take(i + 1).drop_last() =~= all.take(i as int));
        assert(all.take(i + 1).last() == parts@[i as int]@);
        if i != 0 {
            r.append(sep);
        } else {
            assert(all.take(1) =~= seq![parts@[0]@]);
        }
        r.append(parts[i].as_str());
        i = i + 1;
    }
    assert(all.take(parts.len() as int) =~= all);
    r
}

/// The decimal digit character for `d`.
pub open spec fn digit_char(d: nat) -> char {
    if d == 0 {
        '0'
    } else if d == 1 {
        '1'
    } else if d == 2 {
        '2'
    } else if d == 3 {
        '3'
    } else if d == 4 {
        '4'
    } else if d == 5 {
        '5'
    } else if d == 6 {
        '6'
    } else if d == 7 {
        '7'
    } else if d == 8 {
        '8'
    } else {
        '9'
    }
}

/// The decimal notation of `n`, without sign or leading zeros.
pub open spec fn decimal(n: nat) -> Seq<char>
    decreases n,
{
    if n < 10 {
        seq![digit_char(n)]
    } else {
        decimal(n / 10).push(digit_char(n % 10))
    }
}

fn digit_str(d: u64) -> (s: &'static str)
    requires
        d < 10,
    ensures
        s@ == seq![digit_char(d as nat)],
{
    if d == 0 {
        proof { reveal_strlit("0"); }
        "0"
    } else if d == 1 {
        proof { reveal_strlit("1"); }
        "1"
    } else if d == 2 {
        proof { reveal_strlit("2"); }
        "2"
    } else if d == 3 {
        proof { reveal_strlit("3"); }
        "3"
    } else if d == 4 {
        proof { reveal_strlit("4"); }
        "4"
    } else if d == 5 {
        proof { reveal_strlit("5"); }
        "5"
    } else if d == 6 {
        proof { reveal_strlit("6"); }
        "6"
    } else if d == 7 {
        proof { reveal_strlit("7"); }
        "7"
    } else if d == 8 {
        proof { reveal_strlit("8"); }
        "8"
    } else {
        proof { reveal_strlit("9"); }
        "9"
    }
}

/// The decimal notation of `n`, as `n.to_string()` writes it.
pub fn decimal_string(n: u64) -> (s: String)
    ensures
        s@ == decimal(n as nat),
    decreases n,
{
    if n < 10 {
        String::from_str(digit_str(n))
    } else {
        let mut s = decimal_string(n / 10);
        s.append(digit_str(n % 10));
        s
    }
}

/// `root` joined with the relative path `name`, with one separator between them.
pub open spec fn path_join(root: Seq<char>, name: Seq<char>) -> Seq<char> {
    if root.len() == 0 {
        name
    } else if root.last() == '/' {
        root + name
    } else {
        root + seq!['/'] + name
    }
}

/// Joins the relative path `name` onto `root`.
pub fn join_path(root: &str, name: &str) -> (r: String)
    ensures
        r@ == path_join(root@, name@),
{
    let rc = chars_of(root);
    let mut r = String::from_str(root);
    if rc.len() != 0 && rc[rc.len() - 1] != '/' {
        proof { reveal_strlit("/"); }
        r.append("/");
    }
    r.append(name);
    r
}

/// The part of `path` inside `root`, when `path` lies inside it.
pub open spec fn strip_root_spec(path: Seq<char>, root: Seq<char>) -> Option<Seq<char>> {
    if root.len() == 0 {
        Some(path)
    } else if root.last() == '/' {
        if path.len() >= root.len() && path.subrange(0, root.len() as int) == root {
            Some(path.subrange(root.len() as int, path.len() as int))
        } else {
            None
        }
    } else if path.len() > root.len() && path.subrange(0, root.len() as int) == root && path[root.len() as int] == '/' {
        Some(path.subrange(root.len() + 1int, path.len() as int))
    } else {
        None
    }
}

/// Stripping the root and joining it back gives the path again.
pub proof fn law_strip_root_joins_back(path: Seq<char>, root: Seq<char>)
    requires
        strip_root_spec(path, root) is Some,
    ensures
        path_join(root, strip_root_spec(path, root)->0) == path,
{
    let rel = strip_root_spec(path, root)->0;
    if root.len() > 0 {
        if root.last() == '/' {
            assert(root + rel =~= path);
        } else {
            assert(root + seq!['/'] + rel =~= path);
        }
    }
}

/// The part of `path` inside `root` (without the separator), or none when `path` is not
/// inside `root`.
pub fn strip_root(path: &str, root: &str) -> (r: Option<String>)
    ensures
        opt_view(r) == strip_root_spec(path@, root@),
{
    let p = chars_of(path);
    let q = chars_of(root);
    if q.len() == 0 {
        return Some(String::from_str(path));
    }
    if p.len() < q.len() {
        return None;
    }
    let mut i: usize = 0;
    while i < q.len()
        invariant
            p@ == path@,
            q@ == root@,
            q.len() <= p.len(),
            i <= q.len(),
            forall|k: int| 0 <= k < i ==> p@[k] == q@[k],
        decreases q.len() - i,
    {
        if p[i] != q[i] {
            assert(p@.subrange(0, q.len() as int)[i as int] != q@[i as int]);
            return None;
        }
        i = i + 1;
    }
    assert(p@.subrange(0, q.len() as int) =~= q@);
    if q[q.len() - 1] == '/' {
        Some(path.substring_char(q.len(), p.len()).to_owned())
    } else if p.len() > q.len() && p[q.len()] == '/' {
        Some(path.substring_char(q.len() + 1, p.len()).to_owned())
    } else {
        None
    }
}

/// Each path made relative to `root`: the paths must all lie inside it.
pub fn relative_paths(root: &str, paths: &Vec<String>) -> (r: Vec<String>)
    requires
        forall|i: int| 0 <= i < paths.len() ==> strip_root_spec(#[trigger] paths@[i]@, root@) is Some,
    ensures
        r.len() == paths.len(),
        forall|i: int| 0 <= i < paths.len() ==> Some(#[trigger] r@[i]@) == strip_root_spec(paths@[i]@, root@),
{
    let mut r: Vec<String> = Vec::new();
    let mut i: usize = 0;
    while i < paths.len()
        invariant
            i <= paths.len(),
            r.len() == i,
            forall|k: int| 0 <= k < paths.len() ==> strip_root_spec(#[trigger] paths@[k]@, root@) is Some,
            forall|k: int| 0 <= k < i ==> Some(#[trigger] r@[k]@) == strip_root_spec(paths@[k]@, root@),
        decreases paths.len() - i,
    {
        match strip_root(paths[i].as_str(), root) {
            Some(rel) => {
                r.push(rel);
            },
            None => {
                assert(strip_root_spec(paths@[i as int]@, root@) is Some);
                return r;
            },
        }
        i = i + 1;
    }
    r
}

}
