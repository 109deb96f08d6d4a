//! Reading the prerequisites out of the make-style `.d` files that the
//! compiler writes next to each object file (`-MMD`).
use vstd::prelude::*;
use crate::text::{chars_of, is_ws, lines, split_lines, split_words, words};

verus! {

/// Index of the first occurrence of `c` in `s`, or -1.
pub open spec fn first_index(s: Seq<char>, c: char) -> int
    decreases s.len(),
{
    if s.len() == 0 {
        -1
    } else {
        let f = first_index(s.drop_last(), c);
        if f >= 0 {
            f
        } else if s.last() == c {
            s.len() - 1
        } else {
            -1
        }
    }
}

pub proof fn lemma_first_index(s: Seq<char>, c: char)
    ensures
        -1 <= first_index(s, c) < s.len(),
        first_index(s, c) >= 0 ==> s[first_index(s, c)] == c,
        forall|j: int|
            0 <= j < s.len() && (first_index(s, c) < 0 || j < first_index(s, c)) ==> s[j] != c,
    decreases s.len(),
{
    if s.len() > 0 {
        lemma_first_index(s.drop_last(), c);
        let d = s.drop_last();
        assert forall|j: int|
            0 <= j < s.len() && (first_index(s, c) < 0 || j < first_index(s, c)) implies s[j]
            != c by {
            if j < s.len() - 1 {
                assert(s[j] == d[j]);
            }
        }
    }
}

/// A line that ends in a backslash continues on the next line.
pub open spec fn is_continued(l: Seq<char>) -> bool {
    l.len() > 0 && l.last() == '\\'
}

/// Joins continued lines into logical lines. The first component holds the
/// finished logical lines; the second the text gathered from continued lines
/// that no finishing line has closed yet.
pub open spec fn joined(ls: Seq<Seq<char>>) -> (Seq<Seq<char>>, Seq<char>)
    decreases ls.len(),
{
    if ls.len() == 0 {
        (Seq::empty(), Seq::empty())
    } else {
        let prev = joined(ls.drop_last());
        let l = ls.last();
        if is_continued(l) {
            (prev.0, prev.1 + l.drop_last())
        } else {
            (prev.0.push(prev.1 + l), Seq::empty())
        }
    }
}

/// The prerequisites named by one logical line: the words after its first
/// colon, or nothing where it has no colon.
pub open spec fn rule_prereqs(line: Seq<char>) -> Seq<Seq<char>> {
    let k = first_index(line, ':');
    if k >= 0 {
        words(line.subrange(k + 1, line.len() as int))
    } else {
        Seq::empty()
    }
}

/// The prerequisites of a sequence of logical lines, in order.
pub open spec fn all_prereqs(ls: Seq<Seq<char>>) -> Seq<Seq<char>>
    decreases ls.len(),
{
    if ls.len() == 0 {
        Seq::empty()
    } else {
        all_prereqs(ls.drop_last()) + rule_prereqs(ls.last())
    }
}

/// The prerequisites listed in the text of a `.d` file.
pub open spec fn dep_file_prereqs(content: Seq<char>) -> Seq<Seq<char>> {
    all_prereqs(joined(lines(content)).0)
}

/// The prerequisites that a `.d` file lists: for each logical line (lines
/// ended by a backslash continue on the next one), the white-space separated
/// words after its first colon.
pub fn parse_deps(content: &str) -> (deps: Vec<String>)
    ensures
        deps.deep_view() == dep_file_prereqs(content@),
        forall|i: int|
            0 <= i < deps@.len() ==> #[trigger] deps@[i]@.len() > 0 && forall|j: int|
                0 <= j < deps@[i]@.len() ==> !is_ws(#[trigger] deps@[i]@[j]),
{
    let chars = chars_of(content);
    let ls = split_lines(&chars);
    let ghost lv = ls.deep_view();
    let mut deps: Vec<String> = Vec::new();
    let mut full: Vec<char> = Vec::new();
    let mut i: usize = 0;
    assert(lv.take(0) =~= Seq::<Seq<char>>::empty());
    while i < ls.len()
        invariant
            lv == ls.deep_view(),
            i <= ls@.len(),
            full@ == joined(lv.take(i as int)).1,
            deps.deep_view() == all_prereqs(joined(lv.take(i as int)).0),
        decreases ls@.len() - i,
    {
        let line = &ls[i];
        let ghost l = lv[i as int];
        assert(line@ =~= l);
        assert(lv.take(i + 1).drop_last() =~= lv.take(i as int));
        let n = line.len();
        if n > 0 && line[n - 1] == '\\' {
            let mut j: usize = 0;
            while j + 1 < n
                invariant
                    n == line@.len(),
                    n > 0,
                    j + 1 <= n,
                    full@ == joined(lv.take(i as int)).1 + line@.take(j as int),
                decreases n - j,
            {
                full.push(line[j]);
                j = j + 1;
                assert(full@ =~= joined(lv.take(i as int)).1 + line@.take(j as int));
            }
            assert(line@.take(j as int) =~= l.drop_last());
        } else {
            let mut j: usize = 0;
            while j < n
                invariant
                    n == line@.len(),
                    j <= n,
                    full@ == joined(lv.take(i as int)).1 + line@.take(j as int),
                decreases n - j,
            {
                full.push(line[j]);
                j = j + 1;
                assert(full@ =~= joined(lv.take(i as int)).1 + line@.take(j as int));
            }
            assert(line@.take(j as int) =~= l);
            let ghost logical = full@;
            let mut k: usize = 0;
            proof {
                lemma_first_index(logical, ':');
            }
            while k < full.len() && full[k] != ':'
                invariant
                    k <= full@.len(),
                    forall|m: int| 0 <= m < k ==> full@[m] != ':',
                decreases full@.len() - k,
            {
                k = k + 1;
            }
            if k < full.len() {
                assert(first_index(logical, ':') == k);
                let mut ws = split_words(&full, k + 1);
                let ghost od = deps.deep_view();
                let ghost wd = ws.deep_view();
                deps.append(&mut ws);
                assert(deps.deep_view() =~= od + wd);
            } else {
                assert(first_index(logical, ':') < 0);
                assert(rule_prereqs(logical) =~= Seq::<Seq<char>>::empty());
                assert(deps.deep_view() =~= deps.deep_view() + rule_prereqs(logical));
            }
            proof {
                let prev = joined(lv.take(i as int));
                assert(joined(lv.take(i + 1)).0 == prev.0.push(logical));
                assert(prev.0.push(logical).drop_last() =~= prev.0);
            }
            full = Vec::new();
        }
        i = i + 1;
    }
    assert(lv.take(ls@.len() as int) =~= lv);
    proof {
        lemma_prereqs_are_words(joined(lv).0);
        assert forall|i: int| 0 <= i < deps@.len() implies #[trigger] deps@[i]@.len() > 0 && forall|
            j: int,
        | 0 <= j < deps@[i]@.len() ==> !is_ws(#[trigger] deps@[i]@[j]) by {
            assert(deps@[i]@ == deps.deep_view()[i]);
        }
    }
    deps
}

/// Every prerequisite read from a `.d` file is a non-empty word without
/// white space.
pub proof fn lemma_prereqs_are_words(ls: Seq<Seq<char>>)
    ensures
        forall|i: int|
            0 <= i < all_prereqs(ls).len() ==> #[trigger] all_prereqs(ls)[i].len() > 0
                && forall|j: int|
                0 <= j < all_prereqs(ls)[i].len() ==> !is_ws(#[trigger] all_prereqs(ls)[i][j]),
    decreases ls.len(),
{
    if ls.len() > 0 {
        lemma_prereqs_are_words(ls.drop_last());
        let l = ls.last();
        let k = first_index(l, ':');
        if k >= 0 {
            crate::text::lemma_words_shape(l.subrange(k + 1, l.len() as int));
        }
        let a = all_prereqs(ls.drop_last());
        let b = rule_prereqs(l);
        assert forall|i: int| 0 <= i < all_prereqs(ls).len() implies #[trigger] all_prereqs(
            ls,
        )[i].len() > 0 && forall|j: int|
            0 <= j < all_prereqs(ls)[i].len() ==> !is_ws(#[trigger] all_prereqs(ls)[i][j]) by {
            if i < a.len() {
                assert(all_prereqs(ls)[i] == a[i]);
            } else {
                assert(all_prereqs(ls)[i] == b[i - a.len()]);
            }
        }
    }
}

} // verus!
