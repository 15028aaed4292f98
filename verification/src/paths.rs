//! Unix path model.
//!
//! A path is its text; its components follow std's `Path::components` on
//! Unix: separators are `/`, repeated separators and `.` segments are dropped
//! except a leading `.`, and an absolute path starts with the root `/`.
//! Two paths are equal, and one starts with another, by their components.

use vstd::prelude::*;
use crate::text::{buffer_views, chars_eq, from_chars, push_all, slice_chars, to_chars};

verus! {

/// The index of the first `c` in `s`, or `s.len()` when there is none.
pub open spec fn first_index(s: Seq<char>, c: char) -> int
    decreases s.len(),
{
    if s.len() == 0 {
        0
    } else if s[0] == c {
        0
    } else {
        1 + first_index(s.drop_first(), c)
    }
}

pub proof fn lemma_first_index_bounds(s: Seq<char>, c: char)
    ensures
        0 <= first_index(s, c) <= s.len(),
        first_index(s, c) < s.len() ==> s[first_index(s, c)] == c,
        forall|j: int| 0 <= j < first_index(s, c) ==> s[j] != c,
    decreases s.len(),
{
    if s.len() > 0 && s[0] != c {
        lemma_first_index_bounds(s.drop_first(), c);
        assert forall|j: int| 0 <= j < first_index(s, c) implies s[j] != c by {
            if j > 0 {
                assert(s[j] == s.drop_first()[j - 1]);
            }
        }
    }
}

pub proof fn lemma_first_index_value(s: Seq<char>, c: char, k: int)
    requires
        0 <= k <= s.len(),
        forall|j: int| 0 <= j < k ==> s[j] != c,
        k == s.len() || s[k] == c,
    ensures
        first_index(s, c) == k,
    decreases k,
{
    if k > 0 {
        let t = s.drop_first();
        assert forall|j: int| 0 <= j < k - 1 implies t[j] != c by {
            assert(t[j] == s[j + 1]);
        }
        if k < s.len() {
            assert(t[k - 1] == s[k]);
        }
        lemma_first_index_value(t, c, k - 1);
    }
}

/// `s` split at every `c`, empty pieces included: std's `str::split`.
pub open spec fn split(s: Seq<char>, c: char) -> Seq<Seq<char>>
    decreases s.len(),
{
    let k = first_index(s, c);
    proof {
        lemma_first_index_bounds(s, c);
    }
    if k == s.len() {
        seq![s]
    } else {
        seq![s.take(k)] + split(s.skip(k + 1), c)
    }
}

/// The buffer split at every `c`.
pub fn split_chars(s: &[char], c: char) -> (r: Vec<Vec<char>>)
    ensures
        buffer_views(r@) == split(s@, c),
        r@.len() > 0,
{
    let mut out: Vec<Vec<char>> = Vec::new();
    let mut start: usize = 0;
    let mut i: usize = 0;
    proof {
        assert(s@.skip(0) =~= s@);
        assert(buffer_views(out@) + split(s@, c) =~= split(s@, c));
    }
    while i < s.len()
        invariant
            start <= i <= s.len(),
            forall|j: int| start <= j < i ==> s@[j] != c,
            buffer_views(out@) + split(s@.skip(start as int), c) == split(s@, c),
        decreases s.len() - i,
    {
        if s[i] == c {
            let piece = slice_chars(s, start, i);
            let ghost t = s@.skip(start as int);
            proof {
                assert forall|j: int| 0 <= j < i - start implies t[j] != c by {
                    assert(t[j] == s@[j + start]);
                }
                assert(t[i - start] == s@[i as int]);
                lemma_first_index_value(t, c, i - start);
                assert(t.take(i - start) =~= s@.subrange(start as int, i as int));
                assert(t.skip(i - start + 1) =~= s@.skip(i + 1));
            }
            let ghost before = buffer_views(out@);
            out.push(piece);
            proof {
                assert(buffer_views(out@) =~= before.push(piece@));
                assert(buffer_views(out@) + split(s@.skip(i + 1), c) =~= before + (seq![piece@]
                    + split(s@.skip(i + 1), c)));
            }
            start = i + 1;
        }
        i = i + 1;
    }
    let piece = slice_chars(s, start, s.len());
    let ghost t = s@.skip(start as int);
    proof {
        assert forall|j: int| 0 <= j < t.len() implies t[j] != c by {
            assert(t[j] == s@[j + start]);
        }
        lemma_first_index_value(t, c, t.len() as int);
        assert(piece@ =~= t);
    }
    let ghost before = buffer_views(out@);
    out.push(piece);
    proof {
        assert(buffer_views(out@) =~= before.push(piece@));
        assert(before + split(t, c) =~= buffer_views(out@));
    }
    out
}

/// Whether a segment is kept as a normal component (not empty, not `.`).
pub open spec fn is_kept_segment(g: Seq<char>) -> bool {
    g.len() > 0 && g != seq!['.']
}

/// The segments kept as normal components.
pub open spec fn normal_components(segs: Seq<Seq<char>>) -> Seq<Seq<char>>
    decreases segs.len(),
{
    if segs.len() == 0 {
        seq![]
    } else if is_kept_segment(segs[0]) {
        seq![segs[0]] + normal_components(segs.drop_first())
    } else {
        normal_components(segs.drop_first())
    }
}

/// The root component of an absolute path.
pub open spec fn root_component() -> Seq<char> {
    seq!['/']
}

/// The current-directory component that a relative path may start with.
pub open spec fn cur_dir_component() -> Seq<char> {
    seq!['.']
}

/// The parent-directory component.
pub open spec fn parent_dir_component() -> Seq<char> {
    seq!['.', '.']
}

/// The components of a path, as std's `Path::components` gives them on Unix.
pub open spec fn components(p: Seq<char>) -> Seq<Seq<char>> {
    let segs = split(p, '/');
    if p.len() > 0 && p[0] == '/' {
        seq![root_component()] + normal_components(segs.drop_first())
    } else if segs[0] == cur_dir_component() {
        seq![cur_dir_component()] + normal_components(segs.drop_first())
    } else {
        normal_components(segs)
    }
}

/// Whether two paths are equal, as std's `PathBuf` compares them.
pub open spec fn same_path(a: Seq<char>, b: Seq<char>) -> bool {
    components(a) == components(b)
}

fn is_kept_segment_exec(g: &[char]) -> (r: bool)
    ensures
        r == is_kept_segment(g@),
{
    if g.len() == 0 {
        return false;
    }
    let r = !(g.len() == 1 && g[0] == '.');
    proof {
        if g.len() == 1 && g[0] == '.' {
            assert(g@ =~= seq!['.']);
        } else if g.len() == 1 {
            assert(g@[0] != seq!['.'][0]);
        } else {
            assert(g@.len() != seq!['.'].len());
        }
    }
    r
}

/// The components of a path.
pub fn components_of(p: &[char]) -> (r: Vec<Vec<char>>)
    ensures
        buffer_views(r@) == components(p@),
{
    let segs = split_chars(p, '/');
    let ghost sv = buffer_views(segs@);
    let mut out: Vec<Vec<char>> = Vec::new();
    let mut i: usize = 0;
    let absolute = p.len() > 0 && p[0] == '/';
    let cur = !absolute && segs[0].len() == 1 && segs[0][0] == '.';
    proof {
        if !absolute {
            if segs@[0]@.len() == 1 && segs@[0]@[0] == '.' {
                assert(segs@[0]@ =~= cur_dir_component());
            } else if segs@[0]@.len() == 1 {
                assert(segs@[0]@[0] != cur_dir_component()[0]);
            } else {
                assert(segs@[0]@.len() != cur_dir_component().len());
            }
        }
    }
    if absolute {
        let mut root: Vec<char> = Vec::new();
        root.push('/');
        proof {
            assert(root@ =~= root_component());
        }
        out.push(root);
        i = 1;
    } else if cur {
        let mut dot: Vec<char> = Vec::new();
        dot.push('.');
        proof {
            assert(dot@ =~= cur_dir_component());
        }
        out.push(dot);
        i = 1;
    }
    let ghost head = buffer_views(out@);
    proof {
        assert(sv.skip(i as int) =~= if i == 1 { sv.drop_first() } else { sv });
        assert(head + normal_components(sv.skip(i as int)) == components(p@)) by {
            if absolute {
                assert(head[0] == root_component());
                assert(head =~= seq![root_component()]);
            } else if cur {
                assert(head[0] == cur_dir_component());
                assert(head =~= seq![cur_dir_component()]);
            } else {
                assert(head =~= Seq::<Seq<char>>::empty());
                assert(head + normal_components(sv) =~= normal_components(sv));
            }
        }
    }
    while i < segs.len()
        invariant
            i <= segs.len(),
            sv == buffer_views(segs@),
            buffer_views(out@) + normal_components(sv.skip(i as int)) == components(p@),
        decreases segs.len() - i,
    {
        let ghost t = sv.skip(i as int);
        proof {
            assert(t[0] == segs@[i as int]@);
            assert(t.drop_first() =~= sv.skip(i + 1));
        }
        if is_kept_segment_exec(&segs[i]) {
            let seg = slice_chars(&segs[i], 0, segs[i].len());
            let ghost before = buffer_views(out@);
            out.push(seg);
            proof {
                assert(seg@ =~= segs@[i as int]@);
                assert(buffer_views(out@) =~= before.push(seg@));
                assert(buffer_views(out@) + normal_components(sv.skip(i + 1)) =~= before + (seq![
                    t[0],
                ] + normal_components(t.drop_first())));
            }
        }
        i = i + 1;
    }
    proof {
        assert(sv.skip(i as int) =~= Seq::<Seq<char>>::empty());
        assert(buffer_views(out@) + seq![] =~= buffer_views(out@));
    }
    out
}

/// Whether two component lists are equal.
pub fn components_eq(a: &Vec<Vec<char>>, b: &Vec<Vec<char>>) -> (r: bool)
    ensures
        r == (buffer_views(a@) == buffer_views(b@)),
{
    if a.len() != b.len() {
        proof {
            assert(buffer_views(a@).len() != buffer_views(b@).len());
        }
        return false;
    }
    let mut i: usize = 0;
    while i < a.len()
        invariant
            i <= a.len(),
            a.len() == b.len(),
            forall|j: int| 0 <= j < i ==> a@[j]@ == b@[j]@,
        decreases a.len() - i,
    {
        if !chars_eq(&a[i], &b[i]) {
            proof {
                assert(buffer_views(a@)[i as int] != buffer_views(b@)[i as int]);
            }
            return false;
        }
        i = i + 1;
    }
    proof {
        assert(buffer_views(a@) =~= buffer_views(b@));
    }
    true
}

/// Whether the components `prefix` begin the components `full`.
pub fn components_start_with(full: &Vec<Vec<char>>, prefix: &Vec<Vec<char>>) -> (r: bool)
    ensures
        r == buffer_views(prefix@).is_prefix_of(buffer_views(full@)),
{
    if prefix.len() > full.len() {
        return false;
    }
    let mut i: usize = 0;
    while i < prefix.len()
        invariant
            i <= prefix.len() <= full.len(),
            forall|j: int| 0 <= j < i ==> prefix@[j]@ == full@[j]@,
        decreases prefix.len() - i,
    {
        if !chars_eq(&prefix[i], &full[i]) {
            proof {
                assert(buffer_views(prefix@)[i as int] != buffer_views(full@)[i as int]);
            }
            return false;
        }
        i = i + 1;
    }
    proof {
        assert(buffer_views(prefix@) =~= buffer_views(full@).take(prefix.len() as int));
    }
    true
}

/// Whether two paths are equal by their components.
pub fn paths_equal(a: &str, b: &str) -> (r: bool)
    ensures
        r == same_path(a@, b@),
{
    let ac = to_chars(a);
    let bc = to_chars(b);
    let ca = components_of(&ac);
    let cb = components_of(&bc);
    components_eq(&ca, &cb)
}

// ---------------------------------------------------------------------------
// Validation of configured paths
// ---------------------------------------------------------------------------

/// Whether a configured path counts as absolute: it starts with `/`, or with
/// `\` (rejected everywhere so that validation does not depend on the system).
pub open spec fn is_absolute_like(p: Seq<char>) -> bool {
    p.len() > 0 && (p[0] == '/' || p[0] == '\\')
}

/// Whether a path has a parent-directory (`..`) component.
pub open spec fn has_parent_component(p: Seq<char>) -> bool {
    components(p).contains(parent_dir_component())
}

/// The validation error for a configured path, if any.
pub open spec fn path_error(p: Seq<char>) -> Option<Seq<char>> {
    if is_absolute_like(p) {
        Some("absolute paths are not allowed: "@ + p)
    } else if has_parent_component(p) {
        Some("path traversal (..) is not allowed: "@ + p)
    } else {
        None
    }
}

/// Validate a path and return an error message if invalid: absolute paths
/// and paths with a `..` component are refused.
pub fn validate_path(path: &str) -> (r: Option<String>)
    ensures
        r matches Some(m) ==> path_error(path@) == Some(m@),
        r is None ==> path_error(path@) is None,
{
    let p = to_chars(path);
    if p.len() > 0 && (p[0] == '/' || p[0] == '\\') {
        let mut m = to_chars("absolute paths are not allowed: ");
        push_all(&mut m, &p);
        return Some(from_chars(&m));
    }
    let comps = components_of(&p);
    let mut dotdot: Vec<char> = Vec::new();
    dotdot.push('.');
    dotdot.push('.');
    proof {
        assert(dotdot@ =~= parent_dir_component());
    }
    let mut i: usize = 0;
    while i < comps.len()
        invariant
            i <= comps.len(),
            dotdot@ == parent_dir_component(),
            buffer_views(comps@) == components(p@),
            p@ == path@,
            !is_absolute_like(path@),
            forall|j: int| 0 <= j < i ==> comps@[j]@ != parent_dir_component(),
        decreases comps.len() - i,
    {
        if chars_eq(&comps[i], &dotdot) {
            proof {
                assert(buffer_views(comps@)[i as int] == parent_dir_component());
                assert(components(p@)[i as int] == parent_dir_component());
                assert(components(p@).contains(parent_dir_component()));
            }
            let mut m = to_chars("path traversal (..) is not allowed: ");
            push_all(&mut m, &p);
            return Some(from_chars(&m));
        }
        i = i + 1;
    }
    proof {
        assert(!components(p@).contains(parent_dir_component())) by {
            if components(p@).contains(parent_dir_component()) {
                let k = choose|k: int|
                    0 <= k < components(p@).len() && components(p@)[k] == parent_dir_component();
                assert(buffer_views(comps@)[k] == comps@[k]@);
            }
        }
    }
    None
}

// ---------------------------------------------------------------------------
// Joining, file names
// ---------------------------------------------------------------------------

/// `base.join(rel)` as std's `Path::join` does it on Unix: an absolute `rel`
/// replaces `base`; otherwise a `/` is put between them unless `base` is empty
/// or already ends with one.
pub open spec fn join_path(base: Seq<char>, rel: Seq<char>) -> Seq<char> {
    if rel.len() > 0 && rel[0] == '/' {
        rel
    } else if base.len() > 0 && base.last() != '/' {
        base + seq!['/'] + rel
    } else {
        base + rel
    }
}

/// The path `base` joined with `rel`.
pub fn join_paths(base: &str, rel: &str) -> (r: String)
    ensures
        r@ == join_path(base@, rel@),
{
    let b = to_chars(base);
    let r = to_chars(rel);
    if r.len() > 0 && r[0] == '/' {
        return from_chars(&r);
    }
    let mut out = b.clone();
    proof {
        assert(out@ == b@);
    }
    if b.len() > 0 && b[b.len() - 1] != '/' {
        out.push('/');
    }
    push_all(&mut out, &r);
    proof {
        if b@.len() > 0 && b@.last() != '/' {
            assert(out@ =~= b@ + seq!['/'] + r@);
        }
    }
    from_chars(&out)
}

/// The final component of a path when it is a normal one: std's
/// `Path::file_name`.
pub open spec fn file_name(p: Seq<char>) -> Option<Seq<char>> {
    let c = components(p);
    if c.len() > 0 && c.last() != root_component() && c.last() != cur_dir_component()
        && c.last() != parent_dir_component() {
        Some(c.last())
    } else {
        None
    }
}

/// The final component of a path when it is a normal one.
pub fn path_file_name(p: &str) -> (r: Option<String>)
    ensures
        r matches Some(n) ==> file_name(p@) == Some(n@),
        r is None ==> file_name(p@) is None,
{
    let pc = to_chars(p);
    let comps = components_of(&pc);
    if comps.len() == 0 {
        return None;
    }
    let last = &comps[comps.len() - 1];
    let mut root: Vec<char> = Vec::new();
    root.push('/');
    let mut cur: Vec<char> = Vec::new();
    cur.push('.');
    let mut parent: Vec<char> = Vec::new();
    parent.push('.');
    parent.push('.');
    proof {
        assert(root@ =~= root_component());
        assert(cur@ =~= cur_dir_component());
        assert(parent@ =~= parent_dir_component());
        assert(components(pc@).last() == last@);
    }
    if chars_eq(last, &root) || chars_eq(last, &cur) || chars_eq(last, &parent) {
        None
    } else {
        Some(from_chars(last))
    }
}

/// The final component of a path, or the empty string: what
/// `file_name().unwrap_or_default()` gives.
pub open spec fn file_name_or_empty(p: Seq<char>) -> Seq<char> {
    match file_name(p) {
        Some(n) => n,
        None => seq![],
    }
}

} // verus!
