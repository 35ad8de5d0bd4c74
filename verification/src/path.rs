//! Paths as text: components, the parent-directory check and joining.
//!
//! A path is a sequence of characters. Both `/` and `\` separate components
//! on every host, so that no check accepts on one platform what another
//! would read as a parent reference. The checks are syntactic: they look at
//! the text of a path and never at the file system, so a symbolic link can
//! still lead out of a directory that the text stays in.

use crate::text::{chars_of, extend_chars, string_of};
use vstd::prelude::*;

verus! {

/// Whether `c` separates the components of a path.
pub open spec fn is_separator(c: char) -> bool {
    c == '/' || c == '\\'
}

/// The component that names the parent directory, `..`.
pub open spec fn parent_marker() -> Seq<char> {
    seq!['.', '.']
}

/// The component that names the directory itself, `.`.
pub open spec fn current_marker() -> Seq<char> {
    seq!['.']
}

/// The components of `s`: the runs of characters between separators, in
/// order. A run may be empty; a text without separators is one component.
pub open spec fn components(s: Seq<char>) -> Seq<Seq<char>>
    decreases s.len(),
{
    if s.len() == 0 {
        seq![Seq::<char>::empty()]
    } else {
        let before = components(s.drop_last());
        if is_separator(s.last()) {
            before.push(Seq::<char>::empty())
        } else {
            before.drop_last().push(before.last().push(s.last()))
        }
    }
}

/// Some component of `s` is the parent marker `..`.
pub open spec fn has_parent_component(s: Seq<char>) -> bool {
    components(s).contains(parent_marker())
}

/// `s` begins with a separator.
pub open spec fn is_rooted(s: Seq<char>) -> bool {
    s.len() > 0 && is_separator(s[0])
}

/// `relative` joined onto `root`. A rooted `relative` replaces `root`;
/// otherwise it follows `root`, with one `/` between them unless `root` is
/// empty or already ends with a separator. Nothing is normalised.
pub open spec fn join(root: Seq<char>, relative: Seq<char>) -> Seq<char> {
    if is_rooted(relative) {
        relative
    } else if root.len() == 0 || is_separator(root.last()) {
        root + relative
    } else {
        root + seq!['/'] + relative
    }
}

/// The views of the vectors in `v`.
pub open spec fn views(v: Seq<Vec<char>>) -> Seq<Seq<char>> {
    v.map_values(|x: Vec<char>| x@)
}

/// A text always has at least one component.
pub proof fn lemma_components_nonempty(s: Seq<char>)
    ensures
        components(s).len() >= 1,
    decreases s.len(),
{
    if s.len() > 0 {
        lemma_components_nonempty(s.drop_last());
    }
}

/// The components of a concatenation: the last component of `a` and the
/// first of `b` run together, the others are unchanged.
pub proof fn lemma_components_concat(a: Seq<char>, b: Seq<char>)
    ensures
        components(a + b) == components(a).drop_last() + seq![
            components(a).last() + components(b).first(),
        ] + components(b).drop_first(),
    decreases b.len(),
{
    lemma_components_nonempty(a);
    lemma_components_nonempty(b);
    let ca = components(a);
    if b.len() == 0 {
        assert(a + b == a);
        assert(components(b) == seq![Seq::<char>::empty()]);
        assert(ca.last() + components(b).first() == ca.last());
        assert(components(b).drop_first() == Seq::<Seq<char>>::empty());
        assert(ca.drop_last() + seq![ca.last()] + Seq::<Seq<char>>::empty() == ca);
    } else {
        let b0 = b.drop_last();
        lemma_components_concat(a, b0);
        lemma_components_nonempty(b0);
        lemma_components_nonempty(a + b0);
        assert((a + b).drop_last() == a + b0);
        assert((a + b).last() == b.last());
        let cb0 = components(b0);
        let cab0 = components(a + b0);
        let cb = components(b);
        let glued = seq![ca.last() + cb0.first()];
        assert(cab0 == ca.drop_last() + glued + cb0.drop_first());
        if is_separator(b.last()) {
            assert(cb == cb0.push(Seq::<char>::empty()));
            assert(cb.first() == cb0.first());
            assert(cb.drop_first() == cb0.drop_first().push(Seq::<char>::empty()));
            assert(components(a + b) == cab0.push(Seq::<char>::empty()));
            assert(components(a + b) == ca.drop_last() + seq![ca.last() + cb.first()]
                + cb.drop_first());
        } else {
            let c = b.last();
            assert(cb == cb0.drop_last().push(cb0.last().push(c)));
            assert(components(a + b) == cab0.drop_last().push(cab0.last().push(c)));
            if cb0.len() == 1 {
                assert(cb0.drop_first() == Seq::<Seq<char>>::empty());
                assert(cb.first() == cb0.first().push(c));
                assert(cb.drop_first() == Seq::<Seq<char>>::empty());
                assert(cab0.last() == ca.last() + cb0.first());
                assert((ca.last() + cb0.first()).push(c) == ca.last() + cb.first());
                assert(cab0.drop_last() == ca.drop_last());
                assert(components(a + b) == ca.drop_last() + seq![ca.last() + cb.first()]
                    + cb.drop_first());
            } else {
                assert(cb.first() == cb0.first());
                assert(cab0.last() == cb0.last());
                assert(cb.drop_first() == cb0.drop_first().drop_last().push(cb0.last().push(c)));
                assert(cab0.drop_last() == ca.drop_last() + glued + cb0.drop_first().drop_last());
                assert(components(a + b) == ca.drop_last() + seq![ca.last() + cb.first()]
                    + cb.drop_first());
            }
        }
    }
}

/// After a text that is empty or ends with a separator, the components of
/// what follows are kept as they are.
pub proof fn lemma_components_after_separator(a: Seq<char>, b: Seq<char>)
    requires
        a.len() == 0 || is_separator(a.last()),
    ensures
        components(a + b) == components(a).drop_last() + components(b),
{
    lemma_components_concat(a, b);
    lemma_components_nonempty(a);
    lemma_components_nonempty(b);
    if a.len() > 0 {
        lemma_components_nonempty(a.drop_last());
    }
    assert(components(a).last() == Seq::<char>::empty());
    assert(components(a).last() + components(b).first() == components(b).first());
    assert(seq![components(b).first()] + components(b).drop_first() == components(b));
}

/// Joining keeps every parent marker of the relative path: a relative path
/// with a `..` component resolves, against any root, to a path with a `..`
/// component.
pub proof fn law_join_keeps_parent_component(root: Seq<char>, relative: Seq<char>)
    requires
        has_parent_component(relative),
    ensures
        has_parent_component(join(root, relative)),
{
    let cr = components(relative);
    let k = choose|k: int| 0 <= k < cr.len() && cr[k] == parent_marker();
    if is_rooted(relative) {
    } else {
        let prefix = if root.len() == 0 || is_separator(root.last()) {
            root
        } else {
            root + seq!['/']
        };
        assert(join(root, relative) == prefix + relative);
        lemma_components_after_separator(prefix, relative);
        lemma_components_nonempty(prefix);
        let cj = components(prefix + relative);
        let shift = components(prefix).len() - 1;
        assert(cj[shift + k] == cr[k]);
    }
}

/// The components of `s`, each as a vector of its own.
pub fn split_components(s: &Vec<char>) -> (out: Vec<Vec<char>>)
    ensures
        views(out@) == components(s@),
{
    let mut done: Vec<Vec<char>> = Vec::new();
    let mut cur: Vec<char> = Vec::new();
    let mut i: usize = 0;
    assert(s@.take(0) == Seq::<char>::empty());
    assert(views(done@).push(cur@) == components(s@.take(0)));
    while i < s.len()
        invariant
            i <= s.len(),
            views(done@).push(cur@) == components(s@.take(i as int)),
        decreases s.len() - i,
    {
        let c = s[i];
        proof {
            assert(s@.take(i + 1).drop_last() == s@.take(i as int));
            assert(s@.take(i + 1).last() == c);
        }
        if c == '/' || c == '\\' {
            let ghost old_done = done@;
            done.push(cur);
            cur = Vec::new();
            assert(views(done@) == views(old_done).push(done@.last()@));
            assert(views(done@).push(cur@) == components(s@.take(i + 1)));
        } else {
            let ghost old_cur = cur@;
            cur.push(c);
            assert(views(done@).push(old_cur).drop_last() == views(done@));
            assert(views(done@).push(cur@) == components(s@.take(i + 1)));
        }
        i += 1;
    }
    assert(s@.take(s.len() as int) == s@);
    let ghost old_done = done@;
    let ghost last = cur@;
    done.push(cur);
    assert(views(done@) == views(old_done).push(last));
    done
}

/// Whether the component `c` is the parent marker `..`.
pub fn is_parent_marker(c: &Vec<char>) -> (b: bool)
    ensures
        b == (c@ == parent_marker()),
{
    let b = c.len() == 2 && c[0] == '.' && c[1] == '.';
    proof {
        if b {
            assert(c@ =~= parent_marker());
        } else if c.len() == 2 {
            assert(parent_marker()[0] == '.' && parent_marker()[1] == '.');
        }
    }
    b
}

/// Whether some component of `path` is the parent marker `..`.
///
/// The check is made on the text alone and follows no symbolic link.
pub fn is_path_transversal(path: &str) -> (b: bool)
    ensures
        b == has_parent_component(path@),
{
    let chars = chars_of(path);
    let parts = split_components(&chars);
    let mut i: usize = 0;
    while i < parts.len()
        invariant
            i <= parts.len(),
            views(parts@) == components(path@),
            forall|k: int| 0 <= k < i ==> components(path@)[k] != parent_marker(),
        decreases parts.len() - i,
    {
        assert(views(parts@)[i as int] == parts@[i as int]@);
        if is_parent_marker(&parts[i]) {
            return true;
        }
        i += 1;
    }
    assert(views(parts@).len() == parts@.len());
    false
}

/// Joins `relative` onto `root`.
pub fn resolve(root: &str, relative: &str) -> (path: String)
    ensures
        path@ == join(root@, relative@),
{
    let r = chars_of(root);
    let rel = chars_of(relative);
    if rel.len() > 0 && (rel[0] == '/' || rel[0] == '\\') {
        return string_of(&rel);
    }
    let mut out = r;
    if out.len() > 0 {
        let last = out[out.len() - 1];
        if !(last == '/' || last == '\\') {
            out.push('/');
        }
    }
    extend_chars(&mut out, &rel);
    string_of(&out)
}

} // verus!
