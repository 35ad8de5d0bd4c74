//! The root directory that every relative path is resolved against.

use crate::locate::{parent_dir, parent_of};
use crate::text::{chars_of, matches_at, occurs_at, replace_char, replace_each, string_of, view_of};
use vstd::prelude::*;
use vstd::string::*;

verus! {

/// The name of the directory that holds the 64-bit executable.
pub open spec fn win64() -> Seq<char> {
    seq!['w', 'i', 'n', '6', '4']
}

/// `s` ends with `suffix`.
pub open spec fn ends_with(s: Seq<char>, suffix: Seq<char>) -> bool {
    occurs_at(s, s.len() - suffix.len(), suffix)
}

/// The directory with the executable's directory taken off `dir` once, or
/// twice where `dir` ends with `win64`.
pub open spec fn install_dir(dir: Seq<char>) -> Option<Seq<char>> {
    if ends_with(dir, win64()) {
        match parent_of(dir) {
            Some(bin) => parent_of(bin),
            None => None,
        }
    } else {
        parent_of(dir)
    }
}

/// The game directory for the executable at `exe`: `garrysmod` inside the
/// directory that holds the executable's `bin` directory, written with `/`
/// throughout and ending with `/`. There is none where the path of the
/// executable is too short to have those directories above it.
pub open spec fn game_dir(exe: Seq<char>) -> Option<Seq<char>> {
    match parent_of(exe) {
        Some(dir) => match install_dir(dir) {
            Some(base) => Some(replace_char(base + "\\garrysmod\\"@, '\\', '/')),
            None => None,
        },
        None => None,
    }
}

/// The game directory for the executable at `exe`.
pub fn game_dir_for(exe: &str) -> (root: Option<String>)
    ensures
        view_of(root) == game_dir(exe@),
{
    let dir = match parent_dir(exe) {
        Some(d) => d,
        None => {
            return None;
        },
    };
    let dir_chars = chars_of(dir.as_str());
    let suffix: Vec<char> = vec!['w', 'i', 'n', '6', '4'];
    assert(suffix@ =~= win64());
    let in_win64 = dir_chars.len() >= suffix.len() && matches_at(
        &dir_chars,
        dir_chars.len() - suffix.len(),
        &suffix,
    );
    let base = if in_win64 {
        match parent_dir(dir.as_str()) {
            Some(bin) => parent_dir(bin.as_str()),
            None => None,
        }
    } else {
        parent_dir(dir.as_str())
    };
    match base {
        Some(b) => {
            let mut text = b;
            text.append("\\garrysmod\\");
            let chars = chars_of(text.as_str());
            Some(string_of(&replace_each(&chars, '\\', '/')))
        },
        None => None,
    }
}

} // verus!
