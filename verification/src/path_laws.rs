//! Components by position: where in a text its components stand.

use crate::locate::dir_len;
use crate::path::{
    components, has_parent_component, is_separator, lemma_components_nonempty, parent_marker,
};
use vstd::prelude::*;

verus! {

/// The characters of `s` from `a` up to `b` stand between separators, or
/// the ends of the text, and hold no separator themselves.
pub open spec fn is_span(s: Seq<char>, a: int, b: int) -> bool {
    &&& 0 <= a <= b <= s.len()
    &&& (a == 0 || is_separator(s[a - 1]))
    &&& (b == s.len() || is_separator(s[b]))
    &&& forall|j: int| a <= j < b ==> !is_separator(#[trigger] s[j])
}

/// Two dots stand at index `i` of `s`, with a separator or an end of the
/// text on either side.
pub open spec fn parent_marker_at(s: Seq<char>, i: int) -> bool {
    &&& 0 <= i
    &&& i + 2 <= s.len()
    &&& s[i] == '.'
    &&& s[i + 1] == '.'
    &&& (i == 0 || is_separator(s[i - 1]))
    &&& (i + 2 == s.len() || is_separator(s[i + 2]))
}

/// What follows the last separator of `s` holds no separator, and a
/// separator stands just before it unless it begins the text.
pub proof fn lemma_dir_len_marks_last_separator(s: Seq<char>)
    ensures
        dir_len(s) <= s.len(),
        dir_len(s) == 0 || is_separator(s[dir_len(s) - 1]),
        forall|j: int| dir_len(s) <= j < s.len() ==> !is_separator(#[trigger] s[j]),
    decreases s.len(),
{
    if s.len() > 0 && !is_separator(s.last()) {
        let s0 = s.drop_last();
        lemma_dir_len_marks_last_separator(s0);
        assert forall|j: int| dir_len(s) <= j < s.len() implies !is_separator(#[trigger] s[j]) by {
            if j < s0.len() {
                assert(s[j] == s0[j]);
            }
        }
        if dir_len(s) > 0 {
            assert(s[dir_len(s) - 1] == s0[dir_len(s0) - 1]);
        }
    }
}

/// The last component of `s` is what follows its last separator.
pub proof fn lemma_last_component(s: Seq<char>)
    ensures
        components(s).len() >= 1,
        components(s).last() == s.skip(dir_len(s) as int),
        dir_len(s) == 0 ==> components(s).len() == 1,
    decreases s.len(),
{
    lemma_components_nonempty(s);
    if s.len() == 0 {
        assert(s.skip(0) =~= Seq::<char>::empty());
    } else {
        let s0 = s.drop_last();
        lemma_last_component(s0);
        lemma_dir_len_marks_last_separator(s0);
        if is_separator(s.last()) {
            assert(s.skip(s.len() as int) =~= Seq::<char>::empty());
        } else {
            assert(s0.skip(dir_len(s0) as int).push(s.last()) =~= s.skip(dir_len(s) as int));
        }
    }
}

/// The components of `s` before the last are the components of what
/// stands before its last separator.
pub proof fn lemma_earlier_components(s: Seq<char>)
    requires
        dir_len(s) > 0,
    ensures
        components(s).drop_last() == components(s.take(dir_len(s) - 1)),
    decreases s.len(),
{
    let s0 = s.drop_last();
    lemma_components_nonempty(s0);
    if is_separator(s.last()) {
        assert(s.take(s.len() - 1) == s0);
        assert(components(s0).push(Seq::<char>::empty()).drop_last() == components(s0));
    } else {
        lemma_earlier_components(s0);
        lemma_dir_len_marks_last_separator(s0);
        assert(s0.take(dir_len(s0) - 1) == s.take(dir_len(s) - 1));
        let before = components(s0);
        assert(before.drop_last().push(before.last().push(s.last())).drop_last()
            == before.drop_last());
    }
}

/// Every component of `s` stands somewhere in `s` between separators or
/// the ends of the text: the lemma gives the place of component `k`.
pub proof fn lemma_component_has_span(s: Seq<char>, k: int) -> (span: (int, int))
    requires
        0 <= k < components(s).len(),
    ensures
        is_span(s, span.0, span.1),
        components(s)[k] == s.subrange(span.0, span.1),
    decreases s.len(),
{
    let d = dir_len(s) as int;
    lemma_dir_len_marks_last_separator(s);
    lemma_last_component(s);
    if k == components(s).len() - 1 {
        assert(s.skip(d) == s.subrange(d, s.len() as int));
        (d, s.len() as int)
    } else {
        let p = s.take(d - 1);
        lemma_earlier_components(s);
        assert(components(s)[k] == components(s).drop_last()[k]);
        let span = lemma_component_has_span(p, k);
        assert(p.subrange(span.0, span.1) == s.subrange(span.0, span.1));
        assert forall|j: int| span.0 <= j < span.1 implies !is_separator(#[trigger] s[j]) by {
            assert(s[j] == p[j]);
        }
        if span.0 > 0 {
            assert(s[span.0 - 1] == p[span.0 - 1]);
        }
        if span.1 < p.len() {
            assert(s[span.1] == p[span.1]);
        }
        span
    }
}

/// Whatever stands in `s` between separators or the ends of the text,
/// without a separator in it, is a component of `s`.
pub proof fn lemma_span_is_component(s: Seq<char>, a: int, b: int)
    requires
        is_span(s, a, b),
    ensures
        components(s).contains(s.subrange(a, b)),
    decreases s.len(),
{
    let d = dir_len(s) as int;
    let cs = components(s);
    lemma_dir_len_marks_last_separator(s);
    lemma_last_component(s);
    if b == s.len() {
        if a < d {
            assert(!is_separator(s[d - 1]));
        }
        if a > d {
            assert(!is_separator(s[a - 1]));
        }
        assert(s.skip(d) == s.subrange(a, b));
        assert(cs[cs.len() - 1] == s.subrange(a, b));
    } else {
        if b >= d {
            assert(!is_separator(s[b]));
        }
        let p = s.take(d - 1);
        assert forall|j: int| a <= j < b implies !is_separator(#[trigger] p[j]) by {
            assert(p[j] == s[j]);
        }
        if a > 0 {
            assert(p[a - 1] == s[a - 1]);
        }
        if b < p.len() {
            assert(p[b] == s[b]);
        }
        lemma_span_is_component(p, a, b);
        lemma_earlier_components(s);
        let k = choose|k: int| 0 <= k < components(p).len() && components(p)[k] == p.subrange(a, b);
        assert(cs.drop_last()[k] == cs[k]);
        assert(p.subrange(a, b) == s.subrange(a, b));
    }
}

/// A text has a `..` component exactly if two dots stand somewhere in it
/// with a separator, or an end of the text, on either side.
pub proof fn law_parent_component_by_position(s: Seq<char>)
    ensures
        has_parent_component(s) <==> exists|i: int| parent_marker_at(s, i),
{
    if has_parent_component(s) {
        let cs = components(s);
        let k = choose|k: int| 0 <= k < cs.len() && cs[k] == parent_marker();
        let span = lemma_component_has_span(s, k);
        let part = s.subrange(span.0, span.1);
        assert(part.len() == 2);
        assert(part[0] == '.' && part[1] == '.');
        assert(parent_marker_at(s, span.0));
    }
    if exists|i: int| parent_marker_at(s, i) {
        let i = choose|i: int| parent_marker_at(s, i);
        assert(is_span(s, i, i + 2));
        lemma_span_is_component(s, i, i + 2);
        assert(s.subrange(i, i + 2) =~= parent_marker());
    }
}

} // verus!
