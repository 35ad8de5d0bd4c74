//! Archive members and how they are collected from what the caller names
//! or from what a directory holds.

use crate::error::{ArchiveError, Failure};
use crate::locate::{relative_path, relative_to};
use crate::naming::{archive_name, archive_name_of};
use crate::path::{join, resolve};
use crate::text::chars_of;
use vstd::prelude::*;
use vstd::string::*;

verus! {

/// One file to put into an archive.
#[derive(Debug, PartialEq, Eq)]
pub struct ArchiveFile {
    /// Where the file is read from.
    pub actual_path: String,
    /// The name of its entry in the archive.
    pub archive_path: String,
}

/// An [`ArchiveFile`] with its texts as sequences of characters.
pub struct Member {
    pub source: Seq<char>,
    pub name: Seq<char>,
}

impl View for ArchiveFile {
    type V = Member;

    open spec fn view(&self) -> Member {
        Member { source: self.actual_path@, name: self.archive_path@ }
    }
}

/// The views of the members in `v`.
pub open spec fn members_of(v: Seq<ArchiveFile>) -> Seq<Member> {
    v.map_values(|m: ArchiveFile| m@)
}

/// What a caller names to be archived: a path relative to the root, stored
/// under that same path or under a name of the caller's choice.
#[derive(Debug, PartialEq, Eq)]
pub enum Named {
    /// A path, stored under its own text.
    Plain(String),
    /// A path and the name to store it under.
    Renamed { path: String, archive_path: String },
}

/// A [`Named`] with its texts as sequences of characters.
pub enum Wanted {
    Plain(Seq<char>),
    Renamed { path: Seq<char>, archive_path: Seq<char> },
}

impl View for Named {
    type V = Wanted;

    open spec fn view(&self) -> Wanted {
        match self {
            Named::Plain(p) => Wanted::Plain(p@),
            Named::Renamed { path, archive_path } => Wanted::Renamed {
                path: path@,
                archive_path: archive_path@,
            },
        }
    }
}

/// The views of the entries in `v`.
pub open spec fn wanted_of(v: Seq<Named>) -> Seq<Wanted> {
    v.map_values(|w: Named| w@)
}

/// What is to be archived: all that a directory holds, or the files that
/// the caller names one by one.
#[derive(Debug, PartialEq, Eq)]
pub enum Source {
    /// A directory, by its path relative to the root.
    Folder(String),
    /// Single files.
    Files(Vec<Named>),
}

/// A [`Source`] with its texts as sequences of characters.
pub enum Chosen {
    Folder(Seq<char>),
    Files(Seq<Wanted>),
}

impl View for Source {
    type V = Chosen;

    open spec fn view(&self) -> Chosen {
        match self {
            Source::Folder(folder) => Chosen::Folder(folder@),
            Source::Files(entries) => Chosen::Files(wanted_of(entries@)),
        }
    }
}

/// The path that `w` names, relative to the root.
pub open spec fn wanted_path(w: Wanted) -> Seq<char> {
    match w {
        Wanted::Plain(p) => p,
        Wanted::Renamed { path, archive_path } => path,
    }
}

/// The member that `w` asks for: its path resolved against `root`, and the
/// stored form of the name it is to have.
pub open spec fn member_for(root: Seq<char>, w: Wanted) -> Member {
    match w {
        Wanted::Plain(p) => Member { source: join(root, p), name: archive_name(p) },
        Wanted::Renamed { path, archive_path } => Member {
            source: join(root, path),
            name: archive_name(archive_path),
        },
    }
}

/// The members that the entries `ws` ask for, in the same order.
pub open spec fn explicit_members(root: Seq<char>, ws: Seq<Wanted>) -> Seq<Member> {
    ws.map_values(|w: Wanted| member_for(root, w))
}

/// One item of a directory listing, as the host reports it.
#[derive(Debug, PartialEq, Eq)]
pub enum Found {
    /// A file or directory, by its path.
    Path(String),
    /// Something whose path cannot be written as text.
    Undecodable,
    /// A directory that could not be read; the text says why.
    Unreadable(String),
}

/// A [`Found`] with its texts as sequences of characters.
pub enum Listed {
    Path(Seq<char>),
    Undecodable,
    Unreadable(Seq<char>),
}

impl View for Found {
    type V = Listed;

    open spec fn view(&self) -> Listed {
        match self {
            Found::Path(p) => Listed::Path(p@),
            Found::Undecodable => Listed::Undecodable,
            Found::Unreadable(m) => Listed::Unreadable(m@),
        }
    }
}

/// The views of the items in `v`.
pub open spec fn listed_of(v: Seq<Found>) -> Seq<Listed> {
    v.map_values(|f: Found| f@)
}

/// What is said of a listed path that does not lie below the directory that
/// was listed.
pub open spec fn stray_message() -> Seq<char> {
    "listed path is not below the folder"@
}

/// The member for one listed item: the item's own path as the source, and
/// as the name its path relative to `folder` in stored form.
pub open spec fn member_found(folder: Seq<char>, item: Listed) -> Result<Member, Failure> {
    match item {
        Listed::Path(p) => match relative_to(folder, p) {
            Some(rel) => Ok(Member { source: p, name: archive_name(rel) }),
            None => Err(Failure::Io(stray_message())),
        },
        Listed::Undecodable => Err(Failure::InvalidEncoding),
        Listed::Unreadable(m) => Err(Failure::Io(m)),
    }
}

/// The members for a listing of `folder`, in the order of the listing, or
/// the failure of the first item that gives none.
pub open spec fn folder_members(folder: Seq<char>, items: Seq<Listed>) -> Result<
    Seq<Member>,
    Failure,
>
    decreases items.len(),
{
    if items.len() == 0 {
        Ok(Seq::<Member>::empty())
    } else {
        match folder_members(folder, items.drop_last()) {
            Err(e) => Err(e),
            Ok(ms) => match member_found(folder, items.last()) {
                Ok(m) => Ok(ms.push(m)),
                Err(e) => Err(e),
            },
        }
    }
}

/// The pattern that lists everything below `folder`, at any depth.
pub open spec fn listing_pattern(folder: Seq<char>) -> Seq<char> {
    if folder.len() > 0 && folder.last() == '/' {
        folder + "**/*"@
    } else {
        folder + seq!['/'] + "**/*"@
    }
}

/// The members that the caller's entries ask for.
pub fn collect_explicit(root: &str, entries: &Vec<Named>) -> (members: Vec<ArchiveFile>)
    ensures
        members_of(members@) == explicit_members(root@, wanted_of(entries@)),
{
    let mut members: Vec<ArchiveFile> = Vec::new();
    let mut i: usize = 0;
    while i < entries.len()
        invariant
            i <= entries.len(),
            members_of(members@) == explicit_members(root@, wanted_of(entries@)).take(i as int),
        decreases entries.len() - i,
    {
        let ghost before = members@;
        let member = match &entries[i] {
            Named::Plain(p) => ArchiveFile {
                actual_path: resolve(root, p.as_str()),
                archive_path: archive_name_of(p.as_str()),
            },
            Named::Renamed { path, archive_path } => ArchiveFile {
                actual_path: resolve(root, path.as_str()),
                archive_path: archive_name_of(archive_path.as_str()),
            },
        };
        assert(member@ == member_for(root@, entries@[i as int]@));
        members.push(member);
        assert(members_of(members@) == members_of(before).push(member@));
        assert(wanted_of(entries@)[i as int] == entries@[i as int]@);
        i += 1;
    }
    members
}

/// The members for a listing of `folder`.
pub fn collect_folder(folder: &str, items: &Vec<Found>) -> (members: Result<
    Vec<ArchiveFile>,
    ArchiveError,
>)
    ensures
        match members {
            Ok(ms) => folder_members(folder@, listed_of(items@)) == Ok::<Seq<Member>, Failure>(
                members_of(ms@),
            ),
            Err(e) => folder_members(folder@, listed_of(items@)) == Err::<Seq<Member>, Failure>(
                e@,
            ),
        },
{
    let mut members: Vec<ArchiveFile> = Vec::new();
    let mut i: usize = 0;
    let ghost all = listed_of(items@);
    assert(all.take(0) == Seq::<Listed>::empty());
    assert(members_of(members@) == Seq::<Member>::empty());
    while i < items.len()
        invariant
            i <= items.len(),
            all == listed_of(items@),
            folder_members(folder@, all.take(i as int)) == Ok::<Seq<Member>, Failure>(
                members_of(members@),
            ),
        decreases items.len() - i,
    {
        let ghost before = members@;
        proof {
            assert(all.take(i + 1).drop_last() == all.take(i as int));
            assert(all.take(i + 1).last() == items@[i as int]@);
        }
        match &items[i] {
            Found::Path(p) => {
                match relative_path(folder, p.as_str()) {
                    Some(rel) => {
                        let member = ArchiveFile {
                            actual_path: p.clone(),
                            archive_path: archive_name_of(rel.as_str()),
                        };
                        members.push(member);
                        assert(members_of(members@) == members_of(before).push(member@));
                    },
                    None => {
                        proof {
                            lemma_failure_stays(folder@, all, i + 1);
                        }
                        return Err(
                            ArchiveError::Io(
                                String::from_str("listed path is not below the folder"),
                            ),
                        );
                    },
                }
            },
            Found::Undecodable => {
                proof {
                    lemma_failure_stays(folder@, all, i + 1);
                }
                return Err(ArchiveError::InvalidEncoding);
            },
            Found::Unreadable(m) => {
                proof {
                    lemma_failure_stays(folder@, all, i + 1);
                }
                return Err(ArchiveError::Io(m.clone()));
            },
        }
        i += 1;
    }
    assert(all.take(items.len() as int) == all);
    Ok(members)
}

/// Once a prefix of a listing fails, the whole listing fails in the same way.
pub proof fn lemma_failure_stays(folder: Seq<char>, items: Seq<Listed>, n: int)
    requires
        0 <= n <= items.len(),
        folder_members(folder, items.take(n)) is Err,
    ensures
        folder_members(folder, items) == folder_members(folder, items.take(n)),
    decreases items.len() - n,
{
    if n == items.len() {
        assert(items.take(n) == items);
    } else {
        assert(items.take(n + 1).drop_last() == items.take(n));
        lemma_failure_stays(folder, items, n + 1);
    }
}

/// The pattern that lists everything below `folder`.
pub fn listing_pattern_of(folder: &str) -> (pattern: String)
    ensures
        pattern@ == listing_pattern(folder@),
{
    let chars = chars_of(folder);
    let mut pattern = String::from_str(folder);
    if !(chars.len() > 0 && chars[chars.len() - 1] == '/') {
        pattern.push('/');
    }
    pattern.append("**/*");
    pattern
}

} // verus!
