//! Parts of a path: the directory above it, its name without the extension,
//! and what is left of it below a given directory.

use crate::enclosed::is_named;
use crate::path::{
    components, current_marker, is_rooted, is_separator, parent_marker, split_components, views,
};
use crate::text::{chars_of, extend_chars, same_chars, string_of, string_of_range, view_of};
use vstd::prelude::*;

verus! {

/// The length of `s` without its trailing separators.
pub open spec fn trimmed_len(s: Seq<char>) -> nat
    decreases s.len(),
{
    if s.len() > 0 && is_separator(s.last()) {
        trimmed_len(s.drop_last())
    } else {
        s.len()
    }
}

/// The length of `s` without the characters after its last separator.
pub open spec fn dir_len(s: Seq<char>) -> nat
    decreases s.len(),
{
    if s.len() > 0 && !is_separator(s.last()) {
        dir_len(s.drop_last())
    } else {
        s.len()
    }
}

/// The index of the last `.` in `s`, if there is one.
pub open spec fn last_dot(s: Seq<char>) -> Option<int>
    decreases s.len(),
{
    if s.len() == 0 {
        None
    } else if s.last() == '.' {
        Some(s.len() - 1)
    } else {
        last_dot(s.drop_last())
    }
}

/// The directory that holds `s`: `s` without its last component and the
/// separators around it. A path made of separators alone, or an empty one,
/// has none; the parent of a name directly below the root is the root.
pub open spec fn parent_of(s: Seq<char>) -> Option<Seq<char>> {
    let body = s.take(trimmed_len(s) as int);
    if body.len() == 0 {
        None
    } else {
        let dir = body.take(dir_len(body) as int);
        let kept = trimmed_len(dir);
        if kept == 0 && dir.len() > 0 {
            Some(dir.take(1))
        } else {
            Some(dir.take(kept as int))
        }
    }
}

/// `s` without the extension of its last component: the text from the last
/// `.` of that component on is dropped, together with trailing separators.
/// A component that begins with its only `.` keeps it, and a path without a
/// last name (empty, separators only, or ending in `..`) is left as it is.
pub open spec fn without_extension(s: Seq<char>) -> Seq<char> {
    let body = s.take(trimmed_len(s) as int);
    let start = dir_len(body);
    let name = body.skip(start as int);
    if name.len() == 0 || name == parent_marker() {
        s
    } else {
        match last_dot(name) {
            Some(d) => if d > 0 {
                body.take(start + d)
            } else {
                body
            },
            None => body,
        }
    }
}

/// The components of `cs` that name something, in order.
pub open spec fn names(cs: Seq<Seq<char>>) -> Seq<Seq<char>>
    decreases cs.len(),
{
    if cs.len() == 0 {
        cs
    } else if is_named(cs.last()) {
        names(cs.drop_last()).push(cs.last())
    } else {
        names(cs.drop_last())
    }
}

/// The names of the path `s`, in order.
pub open spec fn names_of(s: Seq<char>) -> Seq<Seq<char>> {
    names(components(s))
}

/// The names in `ns`, with one `/` between neighbours.
pub open spec fn join_names(ns: Seq<Seq<char>>) -> Seq<char>
    decreases ns.len(),
{
    if ns.len() == 0 {
        Seq::<char>::empty()
    } else if ns.len() == 1 {
        ns[0]
    } else {
        join_names(ns.drop_last()) + seq!['/'] + ns.last()
    }
}

/// `full` lies at or below `base`: both are rooted or neither is, and the
/// names of `base` are the first names of `full`.
pub open spec fn is_below(base: Seq<char>, full: Seq<char>) -> bool {
    let b = names_of(base);
    let f = names_of(full);
    &&& is_rooted(base) == is_rooted(full)
    &&& b.len() <= f.len()
    &&& f.take(b.len() as int) == b
}

/// The path of `full` relative to `base`: the names of `full` that follow
/// those of `base`, joined by `/`.
pub open spec fn relative_to(base: Seq<char>, full: Seq<char>) -> Option<Seq<char>> {
    if is_below(base, full) {
        Some(join_names(names_of(full).skip(names_of(base).len() as int)))
    } else {
        None
    }
}

fn trimmed_end(s: &Vec<char>, end: usize) -> (e: usize)
    requires
        end <= s.len(),
    ensures
        e <= end,
        e == trimmed_len(s@.take(end as int)),
{
    let mut e = end;
    while e > 0 && (s[e - 1] == '/' || s[e - 1] == '\\')
        invariant
            e <= end <= s.len(),
            trimmed_len(s@.take(end as int)) == trimmed_len(s@.take(e as int)),
        decreases e,
    {
        assert(s@.take(e as int).drop_last() == s@.take(e - 1));
        e -= 1;
    }
    e
}

fn dir_end(s: &Vec<char>, end: usize) -> (e: usize)
    requires
        end <= s.len(),
    ensures
        e <= end,
        e == dir_len(s@.take(end as int)),
{
    let mut e = end;
    while e > 0 && !(s[e - 1] == '/' || s[e - 1] == '\\')
        invariant
            e <= end <= s.len(),
            dir_len(s@.take(end as int)) == dir_len(s@.take(e as int)),
        decreases e,
    {
        assert(s@.take(e as int).drop_last() == s@.take(e - 1));
        e -= 1;
    }
    e
}

/// The directory that holds `path`, if it has one.
pub fn parent_dir(path: &str) -> (parent: Option<String>)
    ensures
        view_of(parent) == parent_of(path@),
{
    let s = chars_of(path);
    let e = trimmed_end(&s, s.len());
    assert(s@.take(s.len() as int) == s@);
    if e == 0 {
        return None;
    }
    let b = dir_end(&s, e);
    let kept = trimmed_end(&s, b);
    proof {
        let body = s@.take(e as int);
        assert(body.take(b as int) == s@.take(b as int));
        let dir = body.take(b as int);
        assert(dir.take(1) == s@.subrange(0, 1) || dir.len() == 0);
        assert(dir.take(kept as int) == s@.subrange(0, kept as int));
    }
    if kept == 0 && b > 0 {
        Some(string_of_range(&s, 0, 1))
    } else {
        Some(string_of_range(&s, 0, kept))
    }
}

/// `path` without the extension of its last component.
pub fn strip_extension(path: &str) -> (stem: String)
    ensures
        stem@ == without_extension(path@),
{
    let s = chars_of(path);
    let e = trimmed_end(&s, s.len());
    assert(s@.take(s.len() as int) == s@);
    let b = dir_end(&s, e);
    let ghost body = s@.take(e as int);
    let ghost name = body.skip(b as int);
    assert(name == s@.subrange(b as int, e as int));
    if e == b {
        return string_of(&s);
    }
    if e - b == 2 && s[b] == '.' && s[b + 1] == '.' {
        assert(name =~= parent_marker());
        return string_of(&s);
    }
    proof {
        if name == parent_marker() {
            assert(parent_marker().len() == 2);
            assert(name[0] == '.' && name[1] == '.');
        }
    }
    let mut k = e;
    while k > b && s[k - 1] != '.'
        invariant
            b <= k <= e <= s.len(),
            last_dot(s@.subrange(b as int, e as int)) == last_dot(s@.subrange(b as int, k as int)),
        decreases k,
    {
        assert(s@.subrange(b as int, k as int).drop_last() == s@.subrange(b as int, k - 1));
        k -= 1;
    }
    proof {
        if k > b {
            assert(body.take(b + (k - 1 - b)) == s@.subrange(0, k - 1));
        }
        assert(body == s@.subrange(0, e as int));
    }
    if k > b + 1 {
        string_of_range(&s, 0, k - 1)
    } else {
        string_of_range(&s, 0, e)
    }
}

/// The names of `s`, each as a vector of its own.
pub fn split_names(s: &Vec<char>) -> (out: Vec<Vec<char>>)
    ensures
        views(out@) == names_of(s@),
{
    let parts = split_components(s);
    let ghost cs = components(s@);
    let mut out: Vec<Vec<char>> = Vec::new();
    let mut parts = parts;
    let n = parts.len();
    let mut i: usize = 0;
    assert(cs.take(0) == Seq::<Seq<char>>::empty());
    while i < n
        invariant
            i <= n,
            n == parts.len(),
            cs == components(s@),
            cs.len() == n,
            forall|k: int| i <= k < n ==> parts@[k]@ == cs[k],
            views(out@) == names(cs.take(i as int)),
        decreases n - i,
    {
        let mut part: Vec<char> = Vec::new();
        std::mem::swap(&mut part, &mut parts[i]);
        proof {
            assert(cs.take(i + 1).drop_last() == cs.take(i as int));
            assert(cs.take(i + 1).last() == part@);
        }
        let named = part.len() > 0 && !(part.len() == 1 && part[0] == '.');
        proof {
            if part.len() == 1 && part[0] == '.' {
                assert(part@ =~= current_marker());
            }
            if part@ == current_marker() {
                assert(current_marker().len() == 1 && current_marker()[0] == '.');
            }
        }
        if named {
            let ghost before = out@;
            out.push(part);
            assert(views(out@) == views(before).push(part@));
        }
        i += 1;
    }
    assert(cs.take(n as int) == cs);
    out
}

/// The path of `full` relative to the directory `base`, if `full` lies at or
/// below it.
pub fn relative_path(base: &str, full: &str) -> (rel: Option<String>)
    ensures
        view_of(rel) == relative_to(base@, full@),
{
    let bc = chars_of(base);
    let fc = chars_of(full);
    let b_rooted = bc.len() > 0 && (bc[0] == '/' || bc[0] == '\\');
    let f_rooted = fc.len() > 0 && (fc[0] == '/' || fc[0] == '\\');
    if b_rooted != f_rooted {
        return None;
    }
    let b = split_names(&bc);
    let f = split_names(&fc);
    let ghost bn = names_of(base@);
    let ghost fnames = names_of(full@);
    assert(bn.len() == b@.len() && fnames.len() == f@.len());
    if b.len() > f.len() {
        return None;
    }
    let mut k: usize = 0;
    while k < b.len()
        invariant
            k <= b.len() <= f.len(),
            views(b@) == bn,
            views(f@) == fnames,
            bn == names_of(base@),
            fnames == names_of(full@),
            forall|j: int| 0 <= j < k ==> fnames[j] == bn[j],
        decreases b.len() - k,
    {
        assert(views(b@)[k as int] == b@[k as int]@);
        assert(views(f@)[k as int] == f@[k as int]@);
        if !same_chars(&b[k], &f[k]) {
            assert(fnames.take(bn.len() as int)[k as int] == fnames[k as int]);
            return None;
        }
        k += 1;
    }
    assert(fnames.take(bn.len() as int) =~= bn);
    let ghost rest = fnames.skip(bn.len() as int);
    let mut out: Vec<char> = Vec::new();
    let mut j: usize = b.len();
    assert(rest.take(0) == Seq::<Seq<char>>::empty());
    while j < f.len()
        invariant
            b.len() <= j <= f.len(),
            views(f@) == fnames,
            bn.len() == b.len(),
            rest == fnames.skip(bn.len() as int),
            out@ == join_names(rest.take(j - b.len())),
        decreases f.len() - j,
    {
        proof {
            assert(views(f@)[j as int] == f@[j as int]@);
            let t = rest.take(j - b.len() + 1);
            assert(t.drop_last() == rest.take(j - b.len()));
            assert(t.last() == f@[j as int]@);
            if j == b.len() {
                assert(t.len() == 1);
                assert(t[0] == f@[j as int]@);
            }
        }
        if j > b.len() {
            out.push('/');
        }
        extend_chars(&mut out, &f[j]);
        proof {
            if j == b.len() {
                assert(out@ == f@[j as int]@);
            }
        }
        j += 1;
    }
    assert(rest.take(f.len() - b.len()) == rest);
    Some(string_of(&out))
}

} // verus!
