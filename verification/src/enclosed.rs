//! Entry names that stay inside the directory they are extracted into.

use crate::path::{
    components, current_marker, is_parent_marker, is_rooted, is_separator, join,
    lemma_components_after_separator, lemma_components_nonempty, parent_marker,
    split_components, views,
};
use crate::text::{chars_of, contains_char};
use vstd::prelude::*;

verus! {

/// A component that names a file or directory: neither empty nor `.`.
/// The parent marker `..` counts as a name here.
pub open spec fn is_named(c: Seq<char>) -> bool {
    c.len() > 0 && c != current_marker()
}

/// The depth below the starting directory after walking `c` from `depth`.
pub open spec fn step_depth(depth: int, c: Seq<char>) -> int {
    if c == parent_marker() {
        depth - 1
    } else if is_named(c) {
        depth + 1
    } else {
        depth
    }
}

/// The depth below the starting directory after walking all of `cs`.
pub open spec fn depth_after(cs: Seq<Seq<char>>) -> int
    decreases cs.len(),
{
    if cs.len() == 0 {
        0
    } else {
        step_depth(depth_after(cs.drop_last()), cs.last())
    }
}

/// Walking `cs` component by component never leaves the starting directory.
pub open spec fn never_climbs(cs: Seq<Seq<char>>) -> bool {
    forall|k: int| 0 <= k <= cs.len() ==> depth_after(#[trigger] cs.take(k)) >= 0
}

/// An entry name that is safe to extract: it holds no NUL character, is not
/// rooted, and none of its `..` components climbs above where it started.
pub open spec fn is_enclosed(name: Seq<char>) -> bool {
    &&& !name.contains('\0')
    &&& !is_rooted(name)
    &&& never_climbs(components(name))
}

/// The directories entered and not left again after walking `cs`: a name is
/// entered, `..` leaves the last one entered (and does nothing at the top),
/// empty components and `.` change nothing.
pub open spec fn walk(cs: Seq<Seq<char>>) -> Seq<Seq<char>>
    decreases cs.len(),
{
    if cs.len() == 0 {
        Seq::<Seq<char>>::empty()
    } else {
        let stack = walk(cs.drop_last());
        let c = cs.last();
        if c == parent_marker() {
            if stack.len() > 0 {
                stack.drop_last()
            } else {
                stack
            }
        } else if is_named(c) {
            stack.push(c)
        } else {
            stack
        }
    }
}

/// Where the text `s` leads, as the list of directories entered.
pub open spec fn destination(s: Seq<char>) -> Seq<Seq<char>> {
    walk(components(s))
}

/// Walking `b` after `a`, where `b` never climbs, ends below where `a` ends.
pub proof fn lemma_walk_append(a: Seq<Seq<char>>, b: Seq<Seq<char>>)
    requires
        never_climbs(b),
    ensures
        walk(a + b) == walk(a) + walk(b),
        walk(b).len() == depth_after(b),
    decreases b.len(),
{
    if b.len() == 0 {
        assert(a + b == a);
        assert(walk(a) + walk(b) == walk(a));
    } else {
        let b0 = b.drop_last();
        assert forall|k: int| 0 <= k <= b0.len() implies depth_after(#[trigger] b0.take(k))
            >= 0 by {
            assert(b0.take(k) == b.take(k));
        }
        lemma_walk_append(a, b0);
        assert((a + b).drop_last() == a + b0);
        assert((a + b).last() == b.last());
        assert(b.take(b.len() as int) == b);
        assert(depth_after(b) >= 0);
        let c = b.last();
        if c == parent_marker() {
            assert(walk(b0).len() > 0);
            assert((walk(a) + walk(b0)).drop_last() == walk(a) + walk(b0).drop_last());
        } else if is_named(c) {
            assert((walk(a) + walk(b0)).push(c) == walk(a) + walk(b0).push(c));
        }
    }
}

/// Dropping an empty last component does not change where a walk leads.
pub proof fn lemma_walk_ignores_empty_tail(cs: Seq<Seq<char>>)
    requires
        cs.len() > 0,
        cs.last().len() == 0,
    ensures
        walk(cs.drop_last()) == walk(cs),
{
    assert(parent_marker().len() == 2);
}

/// An enclosed name extracted into `target` leads to a place at or below
/// where `target` leads: the joined path first goes where `target` goes and
/// then only further down.
pub proof fn law_enclosed_stays_under_target(target: Seq<char>, name: Seq<char>)
    requires
        is_enclosed(name),
    ensures
        destination(join(target, name)) == destination(target) + destination(name),
{
    let prefix = if target.len() == 0 || is_separator(target.last()) {
        target
    } else {
        target + seq!['/']
    };
    assert(join(target, name) == prefix + name);
    lemma_components_after_separator(prefix, name);
    lemma_components_nonempty(prefix);
    let cp = components(prefix);
    lemma_walk_append(cp.drop_last(), components(name));
    if target.len() == 0 {
        assert(cp.drop_last() == Seq::<Seq<char>>::empty());
        assert(walk(components(target)) == Seq::<Seq<char>>::empty()) by {
            assert(components(target).drop_last() == Seq::<Seq<char>>::empty());
            assert(parent_marker().len() == 2);
        }
    } else if is_separator(target.last()) {
        lemma_components_nonempty(target.drop_last());
        lemma_walk_ignores_empty_tail(cp);
    } else {
        assert(prefix.drop_last() == target);
        assert(cp == components(target).push(Seq::<char>::empty()));
        assert(cp.drop_last() == components(target));
    }
}

/// Whether the entry name `name` is safe to extract under a directory.
pub fn is_enclosed_name(name: &str) -> (ok: bool)
    ensures
        ok == is_enclosed(name@),
{
    let chars = chars_of(name);
    if contains_char(&chars, '\0') {
        return false;
    }
    if chars.len() > 0 && (chars[0] == '/' || chars[0] == '\\') {
        return false;
    }
    let parts = split_components(&chars);
    let ghost cs = components(name@);
    let mut depth: usize = 0;
    let mut i: usize = 0;
    assert(cs.take(0) == Seq::<Seq<char>>::empty());
    while i < parts.len()
        invariant
            i <= parts.len(),
            views(parts@) == cs,
            cs == components(name@),
            depth == depth_after(cs.take(i as int)),
            depth <= i,
            forall|k: int| 0 <= k <= i ==> depth_after(#[trigger] cs.take(k)) >= 0,
        decreases parts.len() - i,
    {
        let part = &parts[i];
        proof {
            assert(views(parts@)[i as int] == parts@[i as int]@);
            assert(cs.take(i + 1).drop_last() == cs.take(i as int));
            assert(cs.take(i + 1).last() == part@);
        }
        if is_parent_marker(part) {
            if depth == 0 {
                proof {
                    assert(cs.len() == parts@.len());
                    assert(depth_after(cs.take(i + 1)) < 0);
                    assert(!never_climbs(cs));
                }
                return false;
            }
            depth -= 1;
        } else if part.len() > 0 && !(part.len() == 1 && part[0] == '.') {
            proof {
                if part@ == current_marker() {
                    assert(current_marker().len() == 1 && current_marker()[0] == '.');
                }
            }
            depth += 1;
        } else {
            proof {
                if part.len() > 0 {
                    assert(part@ =~= current_marker());
                }
            }
        }
        i += 1;
    }
    assert(views(parts@).len() == parts@.len());
    true
}

} // verus!
