//! What holds of the names under which files are stored, and of where
//! entries with those names are extracted to.

use crate::enclosed::{
    depth_after, destination, is_enclosed, is_named, law_enclosed_stays_under_target,
    never_climbs, walk,
};
use crate::error::Failure;
use crate::locate::{join_names, names, names_of, relative_to};
use crate::member::{member_found, Listed, Member};
use crate::naming::{archive_name, lua, lua_txt};
use crate::path::{
    components, has_parent_component, is_separator, join,
    lemma_components_after_separator, lemma_components_nonempty, parent_marker,
};
use crate::text::{occurs_at, replace_all, replace_char};
use vstd::prelude::*;

verus! {

/// `pat` occurs nowhere in `s`.
pub open spec fn is_free_of(s: Seq<char>, pat: Seq<char>) -> bool {
    forall|i: int| !occurs_at(s, i, pat)
}

/// Every character of `c` satisfies `q`.
pub open spec fn all_chars(c: Seq<char>, q: spec_fn(char) -> bool) -> bool {
    forall|j: int| 0 <= j < c.len() ==> q(#[trigger] c[j])
}

/// Every text in `cs` satisfies `p`.
pub open spec fn all_parts(cs: Seq<Seq<char>>, p: spec_fn(Seq<char>) -> bool) -> bool {
    forall|k: int| 0 <= k < cs.len() ==> p(#[trigger] cs[k])
}

/// Replacing a character that does not occur changes nothing.
pub proof fn lemma_replace_char_absent(s: Seq<char>, from: char, to: char)
    requires
        !s.contains(from),
    ensures
        replace_char(s, from, to) == s,
{
    assert forall|i: int| 0 <= i < s.len() implies replace_char(s, from, to)[i] == s[i] by {
        if s[i] == from {
            assert(s.contains(from));
        }
    }
    assert(replace_char(s, from, to) =~= s);
}

/// Replacing a text that does not occur changes nothing.
pub proof fn lemma_replace_all_absent(s: Seq<char>, from: Seq<char>, to: Seq<char>)
    requires
        is_free_of(s, from),
    ensures
        replace_all(s, from, to) == s,
    decreases s.len(),
{
    if from.len() == 0 || s.len() < from.len() {
    } else {
        assert(!occurs_at(s, 0, from));
        let rest = s.subrange(1, s.len() as int);
        assert forall|i: int| !occurs_at(rest, i, from) by {
            if occurs_at(rest, i, from) {
                assert(s.subrange(i + 1, i + 1 + from.len()) == rest.subrange(i, i + from.len()));
                assert(occurs_at(s, i + 1, from));
            }
        }
        lemma_replace_all_absent(rest, from, to);
        assert(seq![s[0]] + rest == s);
    }
}

/// A name without `\` and without `.lua.txt` is stored as it is.
pub proof fn law_name_without_rewrite_is_kept(text: Seq<char>)
    requires
        !text.contains('\\'),
        is_free_of(text, lua_txt()),
    ensures
        archive_name(text) == text,
{
    lemma_replace_char_absent(text, '\\', '/');
    lemma_replace_all_absent(text, lua_txt(), lua());
}

/// Every character of every component of `s` is a character of `s` and no
/// separator.
pub proof fn lemma_components_are_parts(s: Seq<char>)
    ensures
        all_parts(
            components(s),
            |c: Seq<char>| all_chars(c, |x: char| !is_separator(x) && s.contains(x)),
        ),
    decreases s.len(),
{
    let q = |x: char| !is_separator(x) && s.contains(x);
    let p = |c: Seq<char>| all_chars(c, q);
    let cs = components(s);
    if s.len() == 0 {
        assert forall|k: int| 0 <= k < cs.len() implies p(#[trigger] cs[k]) by {}
    } else {
        let s0 = s.drop_last();
        let q0 = |x: char| !is_separator(x) && s0.contains(x);
        let p0 = |c: Seq<char>| all_chars(c, q0);
        let before = components(s0);
        lemma_components_are_parts(s0);
        lemma_components_nonempty(s0);
        assert forall|k: int| 0 <= k < cs.len() implies p(#[trigger] cs[k]) by {
            let c = cs[k];
            assert forall|j: int| 0 <= j < c.len() implies q(#[trigger] c[j]) by {
                if k < before.len() && j < before[k].len() {
                    assert(p0(before[k]));
                    assert(q0(before[k][j]));
                    assert(c[j] == before[k][j]);
                    let at = choose|i: int| 0 <= i < s0.len() && s0[i] == c[j];
                    assert(s[at] == c[j]);
                } else {
                    assert(c[j] == s.last());
                    assert(s[s.len() - 1] == c[j]);
                }
            }
        }
    }
}

/// The names among `cs` are named, and what holds of every text in `cs`
/// holds of each of them.
pub proof fn lemma_names_are_kept_parts(cs: Seq<Seq<char>>, p: spec_fn(Seq<char>) -> bool)
    requires
        all_parts(cs, p),
    ensures
        all_parts(names(cs), p),
        all_parts(names(cs), |c: Seq<char>| is_named(c)),
    decreases cs.len(),
{
    if cs.len() > 0 {
        let init = cs.drop_last();
        assert forall|k: int| 0 <= k < init.len() implies p(#[trigger] init[k]) by {
            assert(init[k] == cs[k]);
        }
        lemma_names_are_kept_parts(init, p);
        assert(p(cs[cs.len() - 1]));
    }
}

/// A text without separators is its own single component.
pub proof fn lemma_plain_text_is_one_component(x: Seq<char>)
    requires
        all_chars(x, |c: char| !is_separator(c)),
    ensures
        components(x) == seq![x],
    decreases x.len(),
{
    if x.len() == 0 {
        assert(x =~= Seq::<char>::empty());
        assert(components(x) =~= seq![x]);
    } else {
        let x0 = x.drop_last();
        assert forall|j: int| 0 <= j < x0.len() implies !is_separator(#[trigger] x0[j]) by {
            assert(x0[j] == x[j]);
        }
        lemma_plain_text_is_one_component(x0);
        assert(!is_separator(x[x.len() - 1]));
        assert(x0.push(x.last()) == x);
        let before = components(x0);
        assert(before.last() == x0);
        assert(before.drop_last() =~= Seq::<Seq<char>>::empty());
        assert(components(x) == before.drop_last().push(before.last().push(x.last())));
        assert(components(x) =~= seq![x]);
    }
}

/// Names without separators, joined by `/`, are the components of the
/// joined text.
pub proof fn lemma_joined_names_are_components(ns: Seq<Seq<char>>)
    requires
        ns.len() >= 1,
        all_parts(ns, |c: Seq<char>| all_chars(c, |x: char| !is_separator(x))),
    ensures
        components(join_names(ns)) == ns,
    decreases ns.len(),
{
    let p = |c: Seq<char>| all_chars(c, |x: char| !is_separator(x));
    assert(p(ns[ns.len() - 1]));
    lemma_plain_text_is_one_component(ns.last());
    if ns.len() == 1 {
        assert(seq![ns[0]] =~= ns);
    } else {
        let init = ns.drop_last();
        assert forall|k: int| 0 <= k < init.len() implies p(#[trigger] init[k]) by {
            assert(init[k] == ns[k]);
        }
        lemma_joined_names_are_components(init);
        let head = join_names(init) + seq!['/'];
        assert(head.drop_last() == join_names(init));
        assert(components(head) == init.push(Seq::<char>::empty()));
        lemma_components_after_separator(head, ns.last());
        assert(components(head).drop_last() == init);
        assert(init + seq![ns.last()] =~= ns);
    }
}

/// Every character of names joined by `/` satisfies what `/` and every
/// character of every name satisfy.
pub proof fn lemma_joined_names_chars(ns: Seq<Seq<char>>, q: spec_fn(char) -> bool)
    requires
        q('/'),
        all_parts(ns, |c: Seq<char>| all_chars(c, q)),
    ensures
        all_chars(join_names(ns), q),
    decreases ns.len(),
{
    let p = |c: Seq<char>| all_chars(c, q);
    if ns.len() == 0 {
    } else {
        assert(p(ns[ns.len() - 1]));
        if ns.len() == 1 {
            assert(p(ns[0]));
        } else {
            let init = ns.drop_last();
            assert forall|k: int| 0 <= k < init.len() implies p(#[trigger] init[k]) by {
                assert(init[k] == ns[k]);
            }
            lemma_joined_names_chars(init, q);
            let joined = join_names(ns);
            let head = join_names(init);
            assert forall|j: int| 0 <= j < joined.len() implies q(#[trigger] joined[j]) by {
                if j < head.len() {
                    assert(joined[j] == head[j]);
                } else if j == head.len() {
                    assert(joined[j] == '/');
                } else {
                    assert(joined[j] == ns.last()[j - head.len() - 1]);
                }
            }
        }
    }
}

/// The first character of joined names is the first character of the first
/// name.
pub proof fn lemma_joined_names_begin(ns: Seq<Seq<char>>)
    requires
        ns.len() >= 1,
        ns[0].len() > 0,
    ensures
        join_names(ns).len() > 0,
        join_names(ns)[0] == ns[0][0],
    decreases ns.len(),
{
    if ns.len() > 1 {
        let init = ns.drop_last();
        assert(init[0] == ns[0]);
        lemma_joined_names_begin(init);
    }
}

/// Walking names, none of which is `..`, goes one level down with each: it
/// never climbs, and it ends where the names say.
pub proof fn lemma_names_only_go_down(ns: Seq<Seq<char>>)
    requires
        all_parts(ns, |c: Seq<char>| is_named(c) && c != parent_marker()),
    ensures
        depth_after(ns) == ns.len(),
        walk(ns) == ns,
        never_climbs(ns),
    decreases ns.len(),
{
    let p = |c: Seq<char>| is_named(c) && c != parent_marker();
    if ns.len() == 0 {
        assert(ns.take(0) == ns);
    } else {
        let init = ns.drop_last();
        assert forall|k: int| 0 <= k < init.len() implies p(#[trigger] init[k]) by {
            assert(init[k] == ns[k]);
        }
        lemma_names_only_go_down(init);
        assert(p(ns[ns.len() - 1]));
        assert(init.push(ns.last()) == ns);
        assert forall|k: int| 0 <= k <= ns.len() implies depth_after(#[trigger] ns.take(k))
            >= 0 by {
            if k < ns.len() {
                assert(ns.take(k) == init.take(k));
            } else {
                assert(ns.take(k) == ns);
            }
        }
    }
}

/// The empty text leads nowhere and climbs nowhere.
pub proof fn lemma_empty_text_goes_nowhere()
    ensures
        never_climbs(components(Seq::<char>::empty())),
        walk(components(Seq::<char>::empty())) == Seq::<Seq<char>>::empty(),
{
    let cs = components(Seq::<char>::empty());
    let nothing = Seq::<char>::empty();
    assert(cs =~= seq![nothing]);
    assert(cs.drop_last() =~= Seq::<Seq<char>>::empty());
    assert(cs.last() == nothing);
    assert(parent_marker().len() == 2);
    assert(nothing != parent_marker());
    assert(!is_named(nothing));
    assert(depth_after(cs.drop_last()) == 0);
    assert(depth_after(cs) == 0);
    assert(walk(cs.drop_last()) == Seq::<Seq<char>>::empty());
    assert forall|k: int| 0 <= k <= cs.len() implies depth_after(#[trigger] cs.take(k)) >= 0 by {
        if k == 0 {
            assert(cs.take(0) =~= Seq::<Seq<char>>::empty());
        } else {
            assert(cs.take(k) =~= cs);
        }
    }
}

/// The path of a file relative to the directory it was found in is an
/// enclosed name without `\`, and it leads exactly down the names that
/// follow those of the directory, where the file's own path has no `..`
/// component and no NUL character.
pub proof fn law_relative_path_is_enclosed(base: Seq<char>, full: Seq<char>)
    requires
        relative_to(base, full) is Some,
        !has_parent_component(full),
        !full.contains('\0'),
    ensures
        is_enclosed(relative_to(base, full)->0),
        !relative_to(base, full)->0.contains('\\'),
        destination(relative_to(base, full)->0) == names_of(full).skip(names_of(base).len() as int),
{
    let rel = relative_to(base, full)->0;
    let cs = components(full);
    let all = names_of(full);
    let ns = all.skip(names_of(base).len() as int);
    let q = |x: char| !is_separator(x) && full.contains(x);
    let p = |c: Seq<char>| all_chars(c, q);
    let fine = |c: Seq<char>| p(c) && c != parent_marker();
    lemma_components_are_parts(full);
    assert forall|k: int| 0 <= k < cs.len() implies fine(#[trigger] cs[k]) by {
        assert(p(cs[k]));
        if cs[k] == parent_marker() {
            assert(cs.contains(parent_marker()));
        }
    }
    lemma_names_are_kept_parts(cs, fine);
    let named = |c: Seq<char>| is_named(c);
    let good = |c: Seq<char>| is_named(c) && c != parent_marker();
    let quiet = |x: char| x != '\\' && x != '\0' && !is_separator(x) || x == '/';
    let plain = |c: Seq<char>| all_chars(c, |x: char| !is_separator(x));
    let silent = |c: Seq<char>| all_chars(c, quiet);
    assert forall|k: int| 0 <= k < ns.len() implies good(#[trigger] ns[k]) && plain(ns[k])
        && silent(ns[k]) by {
        let c = ns[k];
        assert(c == all[k + names_of(base).len()]);
        assert(fine(all[k + names_of(base).len()]));
        assert(named(all[k + names_of(base).len()]));
        assert forall|j: int| 0 <= j < c.len() implies !is_separator(#[trigger] c[j]) && quiet(
            c[j],
        ) by {
            assert(q(c[j]));
            if c[j] == '\0' {
                assert(full.contains('\0'));
            }
        }
    }
    lemma_names_only_go_down(ns);
    lemma_joined_names_chars(ns, quiet);
    assert(!rel.contains('\0') && !rel.contains('\\')) by {
        if rel.contains('\0') {
            let i = choose|i: int| 0 <= i < rel.len() && rel[i] == '\0';
            assert(quiet(rel[i]));
        }
        if rel.contains('\\') {
            let i = choose|i: int| 0 <= i < rel.len() && rel[i] == '\\';
            assert(quiet(rel[i]));
        }
    }
    if ns.len() == 0 {
        lemma_empty_text_goes_nowhere();
        assert(rel == Seq::<char>::empty());
        assert(walk(components(rel)) =~= ns);
    } else {
        lemma_joined_names_are_components(ns);
        assert(good(ns[0]) && plain(ns[0]));
        lemma_joined_names_begin(ns);
        assert(!is_separator(ns[0][0]));
    }
}

/// A file found below the directory that is archived, whose relative path
/// holds no `.lua.txt`, is stored under that relative path, and an entry
/// of that name is extracted to the same relative path below the target:
/// archiving a tree and extracting the archive reproduces the relative
/// paths of such files.
pub proof fn law_plain_paths_round_trip(folder: Seq<char>, found: Seq<char>, target: Seq<char>)
    requires
        relative_to(folder, found) is Some,
        !has_parent_component(found),
        !found.contains('\0'),
        is_free_of(relative_to(folder, found)->0, lua_txt()),
    ensures
        ({
            let rel = relative_to(folder, found)->0;
            &&& member_found(folder, Listed::Path(found)) == Ok::<Member, Failure>(
                Member { source: found, name: rel },
            )
            &&& is_enclosed(rel)
            &&& destination(join(target, rel)) == destination(target) + names_of(found).skip(
                names_of(folder).len() as int,
            )
        }),
{
    let rel = relative_to(folder, found)->0;
    law_relative_path_is_enclosed(folder, found);
    law_name_without_rewrite_is_kept(rel);
    law_enclosed_stays_under_target(target, rel);
}

} // verus!
