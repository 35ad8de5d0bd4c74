//! The name under which a member is stored in an archive.

use crate::text::{chars_of, replace_all, replace_char, replace_chars, replace_each, string_of};
use vstd::prelude::*;

verus! {

/// The text `.lua.txt`.
pub open spec fn lua_txt() -> Seq<char> {
    seq!['.', 'l', 'u', 'a', '.', 't', 'x', 't']
}

/// The text `.lua`.
pub open spec fn lua() -> Seq<char> {
    seq!['.', 'l', 'u', 'a']
}

/// The name stored for `text`: every `\` becomes `/`, and then every
/// `.lua.txt` becomes `.lua`, wherever in the name it stands. The rewrite is
/// made once, from the left, and is not undone when an archive is read.
pub open spec fn archive_name(text: Seq<char>) -> Seq<char> {
    replace_all(replace_char(text, '\\', '/'), lua_txt(), lua())
}

/// The name under which `text` is stored in an archive.
pub fn archive_name_of(text: &str) -> (name: String)
    ensures
        name@ == archive_name(text@),
{
    let chars = chars_of(text);
    let slashed = replace_each(&chars, '\\', '/');
    let from: Vec<char> = vec!['.', 'l', 'u', 'a', '.', 't', 'x', 't'];
    let to: Vec<char> = vec!['.', 'l', 'u', 'a'];
    assert(from@ =~= lua_txt());
    assert(to@ =~= lua());
    let renamed = replace_chars(&slashed, &from, &to);
    string_of(&renamed)
}

} // verus!
