//! Paths as text, separated by `/`: the last component, its stem and
//! extension, the parent, and replacing the extension. These follow
//! `std::path::Path` for the paths that a directory walk yields for files:
//! no `.` or `..` components and no trailing separator.
use vstd::prelude::*;
use crate::text::{chars_of, push_range, string_of};

verus! {

/// Index just past the last `/` of `p`, or 0 where `p` has none.
pub open spec fn name_start(p: Seq<char>) -> int
    decreases p.len(),
{
    if p.len() == 0 {
        0
    } else if p.last() == '/' {
        p.len() as int
    } else {
        name_start(p.drop_last())
    }
}

pub proof fn lemma_name_start(p: Seq<char>)
    ensures
        0 <= name_start(p) <= p.len(),
        name_start(p) > 0 ==> p[name_start(p) - 1] == '/',
        forall|j: int| name_start(p) <= j < p.len() ==> p[j] != '/',
    decreases p.len(),
{
    if p.len() > 0 {
        lemma_name_start(p.drop_last());
        if p.last() != '/' {
            let d = p.drop_last();
            assert forall|j: int| name_start(p) <= j < p.len() implies p[j] != '/' by {
                if j < p.len() - 1 {
                    assert(p[j] == d[j]);
                }
            }
        }
    }
}

/// The last component of `p`: the text after its last `/`.
pub open spec fn file_name(p: Seq<char>) -> Seq<char> {
    p.subrange(name_start(p), p.len() as int)
}

/// The text before the last `/` of `p` (empty where there is none).
pub open spec fn parent(p: Seq<char>) -> Seq<char> {
    if name_start(p) == 0 {
        Seq::empty()
    } else {
        p.take(name_start(p) - 1)
    }
}

/// Index of the last `.` of `n`, or -1.
pub open spec fn last_dot(n: Seq<char>) -> int
    decreases n.len(),
{
    if n.len() == 0 {
        -1
    } else if n.last() == '.' {
        n.len() - 1
    } else {
        last_dot(n.drop_last())
    }
}

pub proof fn lemma_last_dot(n: Seq<char>)
    ensures
        -1 <= last_dot(n) < n.len(),
        last_dot(n) >= 0 ==> n[last_dot(n)] == '.',
    decreases n.len(),
{
    if n.len() > 0 {
        lemma_last_dot(n.drop_last());
    }
}

/// Length of the stem of a file name: the name up to its last `.`, unless
/// that dot is the first character (a hidden file) or the name is `..`, in
/// which case the whole name.
pub open spec fn stem_len(n: Seq<char>) -> int {
    if n == seq!['.', '.'] || last_dot(n) <= 0 {
        n.len() as int
    } else {
        last_dot(n)
    }
}

/// The extension of the last component of `p`, as `Path::extension` gives it.
pub open spec fn extension(p: Seq<char>) -> Option<Seq<char>> {
    let n = file_name(p);
    if stem_len(n) < n.len() {
        Some(n.subrange(stem_len(n) + 1, n.len() as int))
    } else {
        None
    }
}

/// The stem of the last component of `p`, as `Path::file_stem` gives it.
pub open spec fn file_stem(p: Seq<char>) -> Seq<char> {
    file_name(p).take(stem_len(file_name(p)))
}

/// `p` with the extension of its last component replaced by `o` (added
/// where it has none), as `Path::with_extension("o")` gives it.
pub open spec fn with_o_extension(p: Seq<char>) -> Seq<char> {
    p.take(name_start(p) + stem_len(file_name(p))) + seq!['.', 'o']
}

/// Whether `file` lies under the directory `root`: `root`, a `/`, and a
/// non-empty rest.
pub open spec fn is_under(root: Seq<char>, file: Seq<char>) -> bool {
    &&& file.len() > root.len() + 1
    &&& file.take(root.len() as int) == root
    &&& file[root.len() as int] == '/'
}

/// The part of `file` below `root` (what `strip_prefix` leaves).
pub open spec fn below(root: Seq<char>, file: Seq<char>) -> Seq<char> {
    file.skip(root.len() + 1int)
}

/// Appending text without `/` keeps the start of the last component.
pub proof fn lemma_name_start_append(q: Seq<char>, t: Seq<char>)
    requires
        forall|j: int| 0 <= j < t.len() ==> t[j] != '/',
    ensures
        name_start(q + t) == name_start(q),
    decreases t.len(),
{
    if t.len() > 0 {
        let t2 = t.drop_last();
        assert forall|j: int| 0 <= j < t2.len() implies t2[j] != '/' by {
            assert(t2[j] == t[j]);
        }
        lemma_name_start_append(q, t2);
        assert((q + t).drop_last() =~= q + t2);
        assert((q + t).last() == t[t.len() - 1]);
    }
}

/// Position just past the last `/` of `v@`.
fn find_name_start(v: &Vec<char>) -> (r: usize)
    ensures
        r == name_start(v@),
{
    let mut r: usize = 0;
    let mut i: usize = 0;
    assert(v@.take(0) =~= Seq::<char>::empty());
    while i < v.len()
        invariant
            i <= v@.len(),
            r == name_start(v@.take(i as int)),
        decreases v@.len() - i,
    {
        assert(v@.take(i + 1).drop_last() =~= v@.take(i as int));
        if v[i] == '/' {
            r = i + 1;
        }
        i = i + 1;
    }
    assert(v@.take(v@.len() as int) =~= v@);
    r
}

/// Length of the stem of the name `v@.subrange(from, v@.len())`.
fn find_stem_len(v: &Vec<char>, from: usize) -> (r: usize)
    requires
        from <= v@.len(),
    ensures
        r == stem_len(v@.subrange(from as int, v@.len() as int)),
        r <= v@.len() - from,
{
    let ghost n = v@.subrange(from as int, v@.len() as int);
    let mut dot: usize = 0;
    let mut found = false;
    let mut i = from;
    assert(v@.subrange(from as int, from as int) =~= Seq::<char>::empty());
    while i < v.len()
        invariant
            from <= i <= v@.len(),
            found ==> dot < i - from && last_dot(v@.subrange(from as int, i as int)) == dot,
            !found ==> last_dot(v@.subrange(from as int, i as int)) == -1,
        decreases v@.len() - i,
    {
        assert(v@.subrange(from as int, i + 1).drop_last() =~= v@.subrange(from as int, i as int));
        if v[i] == '.' {
            dot = i - from;
            found = true;
        }
        i = i + 1;
    }
    let len = v.len() - from;
    let dotdot = len == 2 && v[from] == '.' && v[from + 1] == '.';
    if dotdot {
        assert(n =~= seq!['.', '.']);
    } else {
        assert(n != seq!['.', '.']) by {
            if n == seq!['.', '.'] {
                assert(n[0] == v@[from as int] && n[1] == v@[from + 1]);
            }
        }
    }
    if dotdot || !found || dot == 0 {
        len
    } else {
        dot
    }
}

/// The extension of the last component of `path`.
pub fn path_extension(path: &str) -> (r: Option<String>)
    ensures
        r matches Some(e) ==> extension(path@) == Some(e@),
        r is None ==> extension(path@) is None,
{
    let v = chars_of(path);
    let ns = find_name_start(&v);
    proof {
        lemma_name_start(v@);
    }
    let sl = find_stem_len(&v, ns);
    proof {
        lemma_last_dot(v@.subrange(ns as int, v@.len() as int));
    }
    if ns + sl < v.len() {
        let e = string_of(&v, ns + sl + 1, v.len());
        assert(e@ =~= file_name(path@).subrange(sl + 1, file_name(path@).len() as int));
        Some(e)
    } else {
        None
    }
}

/// The stem of the last component of `path`.
pub fn path_file_stem(path: &str) -> (r: String)
    ensures
        r@ == file_stem(path@),
{
    let v = chars_of(path);
    let ns = find_name_start(&v);
    proof {
        lemma_name_start(v@);
        lemma_last_dot(v@.subrange(ns as int, v@.len() as int));
    }
    let sl = find_stem_len(&v, ns);
    let _n = v.len();
    let r = string_of(&v, ns, ns + sl);
    assert(r@ =~= file_stem(path@));
    r
}

/// The text of `path` before its last `/`.
pub fn parent_dir(path: &str) -> (r: String)
    ensures
        r@ == parent(path@),
{
    let v = chars_of(path);
    let ns = find_name_start(&v);
    proof {
        lemma_name_start(v@);
    }
    if ns == 0 {
        String::new()
    } else {
        let r = string_of(&v, 0, ns - 1);
        assert(r@ =~= parent(path@));
        r
    }
}

/// `path` with the extension of its last component replaced by `o`.
pub fn with_o_extension_of(path: &str) -> (r: String)
    ensures
        r@ == with_o_extension(path@),
{
    let v = chars_of(path);
    let mut r = String::new();
    push_with_o_extension(&mut r, &v);
    assert(r@ =~= with_o_extension(path@));
    r
}

/// Appends `p` with its extension replaced by `o` to `out`.
fn push_with_o_extension(out: &mut String, p: &Vec<char>)
    ensures
        final(out)@ == old(out)@ + with_o_extension(p@),
{
    let ns = find_name_start(p);
    proof {
        lemma_name_start(p@);
        lemma_last_dot(p@.subrange(ns as int, p@.len() as int));
    }
    let sl = find_stem_len(p, ns);
    let _n = p.len();
    push_range(out, p, 0, ns + sl);
    out.append(".o");
    proof {
        reveal_strlit(".o");
    }
    assert(out@ =~= old(out)@ + with_o_extension(p@));
}

/// The object file for the source `file` found under `root`:
/// `target/objects/`, then the path below `root` with extension `o`.
pub fn object_path(root: &str, file: &str) -> (r: String)
    requires
        is_under(root@, file@),
    ensures
        r@ == "target/objects/"@ + with_o_extension(below(root@, file@)),
{
    let v = chars_of(file);
    let _n = v.len();
    let skip = root.unicode_len() + 1;
    let mut rel: Vec<char> = Vec::new();
    let mut i = skip;
    while i < v.len()
        invariant
            skip <= i <= v@.len(),
            rel@ == v@.subrange(skip as int, i as int),
        decreases v@.len() - i,
    {
        rel.push(v[i]);
        i = i + 1;
        assert(rel@ =~= v@.subrange(skip as int, i as int));
    }
    assert(rel@ =~= below(root@, file@));
    let mut r = String::from_str("target/objects/");
    push_with_o_extension(&mut r, &rel);
    r
}

/// Tests whether `file` lies under the directory `root`.
pub fn check_under(root: &str, file: &str) -> (b: bool)
    ensures
        b == is_under(root@, file@),
{
    let r = chars_of(root);
    let f = chars_of(file);
    if r.len() >= f.len() || f.len() - r.len() < 2 {
        return false;
    }
    let mut i: usize = 0;
    while i < r.len()
        invariant
            r@ == root@,
            f@ == file@,
            f@.len() > r@.len() + 1,
            i <= r@.len(),
            forall|j: int| 0 <= j < i ==> f@[j] == r@[j],
        decreases r@.len() - i,
    {
        if f[i] != r[i] {
            assert(f@.take(r@.len() as int)[i as int] != r@[i as int]);
            return false;
        }
        i = i + 1;
    }
    assert(f@.take(r@.len() as int) =~= r@);
    f[r.len()] == '/'
}

} // verus!
