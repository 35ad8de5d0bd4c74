use gm_zip::archiver::Archiver;
use gm_zip::error::ArchiveError;
use gm_zip::extractor::Extractor;
use gm_zip::member::{Found, Named};
use gm_zip::protocol::{Reply, Request};
use std::collections::{BTreeMap, BTreeSet};
use std::io::{Cursor, Read, Write};
use zip::write::FileOptions;
use zip::{ZipArchive, ZipWriter};

const ROOT: &str = "/srv/gm/";

/// A host whose files, directories and archives live in memory. Archives
/// are real zip containers.
struct MemoryHost {
    files: BTreeMap<String, Vec<u8>>,
    dirs: BTreeSet<String>,
    modes: BTreeMap<String, u32>,
    notes: Vec<String>,
    strays: Vec<String>,
    writer: Option<(String, ZipWriter<Cursor<Vec<u8>>>)>,
    archive: Option<ZipArchive<Cursor<Vec<u8>>>>,
    log: Vec<Request>,
}

fn trimmed(path: &str) -> String {
    let cut = path.trim_end_matches('/');
    if cut.is_empty() && !path.is_empty() {
        "/".to_string()
    } else {
        cut.to_string()
    }
}

fn above(path: &str) -> Option<String> {
    let cut = trimmed(path);
    match cut.rfind('/') {
        Some(0) if cut.len() > 1 => Some("/".to_string()),
        Some(0) => None,
        Some(at) => Some(cut[..at].to_string()),
        None => None,
    }
}

fn copy_of(request: &Request) -> Request {
    match request {
        Request::CreateArchive { path } => Request::CreateArchive { path: path.clone() },
        Request::ProbeFile { path } => Request::ProbeFile { path: path.clone() },
        Request::StoreFile { source, name, large_file } => Request::StoreFile {
            source: source.clone(),
            name: name.clone(),
            large_file: *large_file,
        },
        Request::SealArchive => Request::SealArchive,
        Request::ProbeFolder { path } => Request::ProbeFolder { path: path.clone() },
        Request::ListFolder { pattern } => Request::ListFolder { pattern: pattern.clone() },
        Request::OpenArchive { path } => Request::OpenArchive { path: path.clone() },
        Request::ReadEntry { index } => Request::ReadEntry { index: *index },
        Request::Note { index, comment } => {
            Request::Note { index: *index, comment: comment.clone() }
        }
        Request::MakeDir { path } => Request::MakeDir { path: path.clone() },
        Request::ExtractEntry { index, path } => {
            Request::ExtractEntry { index: *index, path: path.clone() }
        }
        Request::SetMode { path, mode } => Request::SetMode { path: path.clone(), mode: *mode },
        Request::RemoveFile { path } => Request::RemoveFile { path: path.clone() },
        Request::RemoveTree { path } => Request::RemoveTree { path: path.clone() },
        Request::Succeed => Request::Succeed,
        Request::Fail(e) => Request::Fail(e.duplicate()),
    }
}

impl MemoryHost {
    fn new() -> MemoryHost {
        let mut host = MemoryHost {
            files: BTreeMap::new(),
            dirs: BTreeSet::new(),
            modes: BTreeMap::new(),
            notes: Vec::new(),
            strays: Vec::new(),
            writer: None,
            archive: None,
            log: Vec::new(),
        };
        host.make_dir("/srv/gm");
        host
    }

    fn make_dir(&mut self, path: &str) {
        let mut at = Some(trimmed(path));
        while let Some(dir) = at {
            at = above(&dir);
            self.dirs.insert(dir);
        }
    }

    fn put(&mut self, path: &str, bytes: &[u8]) {
        if let Some(dir) = above(path) {
            self.make_dir(&dir);
        }
        self.files.insert(path.to_string(), bytes.to_vec());
    }

    fn below(&self, dir: &str) -> BTreeMap<String, Vec<u8>> {
        let prefix = format!("{}/", trimmed(dir));
        self.files
            .iter()
            .filter(|(path, _)| path.starts_with(&prefix))
            .map(|(path, bytes)| (path[prefix.len()..].to_string(), bytes.clone()))
            .collect()
    }

    fn entry_names(&self, archive: &str) -> Vec<String> {
        let mut zip = ZipArchive::new(Cursor::new(self.files[archive].clone())).unwrap();
        (0..zip.len()).map(|i| zip.by_index(i).unwrap().name().to_string()).collect()
    }

    fn entry_bytes(&self, archive: &str, name: &str) -> Vec<u8> {
        let mut zip = ZipArchive::new(Cursor::new(self.files[archive].clone())).unwrap();
        let mut bytes = Vec::new();
        zip.by_name(name).unwrap().read_to_end(&mut bytes).unwrap();
        bytes
    }

    fn list(&self, pattern: &str) -> Reply {
        let compiled = match glob::Pattern::new(pattern) {
            Ok(p) => p,
            Err(e) => return Reply::BadPattern(e.to_string()),
        };
        let mut paths: BTreeSet<String> = BTreeSet::new();
        paths.extend(self.dirs.iter().cloned());
        paths.extend(self.files.keys().cloned());
        let mut found: Vec<Found> = paths
            .into_iter()
            .filter(|path| compiled.matches(path))
            .map(Found::Path)
            .collect();
        found.extend(self.strays.iter().cloned().map(Found::Path));
        Reply::Listing(found)
    }

    fn perform(&mut self, request: &Request) -> Reply {
        self.log.push(copy_of(request));
        match request {
            Request::CreateArchive { path } => {
                match above(path) {
                    Some(dir) if self.dirs.contains(&dir) => {}
                    _ => return Reply::Failed("no such directory".to_string()),
                }
                self.files.insert(path.clone(), Vec::new());
                self.writer = Some((path.clone(), ZipWriter::new(Cursor::new(Vec::new()))));
                Reply::Done
            }
            Request::ProbeFile { path } => Reply::Probed {
                exists: self.files.contains_key(path) || self.dirs.contains(&trimmed(path)),
                regular: self.files.contains_key(path),
            },
            Request::ProbeFolder { path } => Reply::Probed {
                exists: self.files.contains_key(path) || self.dirs.contains(&trimmed(path)),
                regular: self.files.contains_key(path),
            },
            Request::StoreFile { source, name, large_file } => {
                let bytes = match self.files.get(source) {
                    Some(bytes) => bytes.clone(),
                    None => return Reply::Failed("no such file".to_string()),
                };
                let (_, writer) = self.writer.as_mut().unwrap();
                let options = FileOptions::default().large_file(*large_file);
                if let Err(e) = writer.start_file(name.as_str(), options) {
                    return Reply::Failed(e.to_string());
                }
                match writer.write_all(&bytes) {
                    Ok(()) => Reply::Done,
                    Err(e) => Reply::Failed(e.to_string()),
                }
            }
            Request::SealArchive => {
                let (path, mut writer) = self.writer.take().unwrap();
                match writer.finish() {
                    Ok(cursor) => {
                        self.files.insert(path, cursor.into_inner());
                        Reply::Done
                    }
                    Err(e) => Reply::Failed(e.to_string()),
                }
            }
            Request::ListFolder { pattern } => self.list(pattern),
            Request::OpenArchive { path } => {
                let bytes = match self.files.get(path) {
                    Some(bytes) => bytes.clone(),
                    None => return Reply::Failed("no such file".to_string()),
                };
                match ZipArchive::new(Cursor::new(bytes)) {
                    Ok(archive) => {
                        let entries = archive.len();
                        self.archive = Some(archive);
                        Reply::Opened { entries }
                    }
                    Err(e) => Reply::Failed(e.to_string()),
                }
            }
            Request::ReadEntry { index } => {
                match self.archive.as_mut().unwrap().by_index(*index) {
                    Ok(file) => Reply::Entry {
                        name: file.name().to_string(),
                        comment: file.comment().to_string(),
                        mode: file.unix_mode(),
                    },
                    Err(e) => Reply::Failed(e.to_string()),
                }
            }
            Request::Note { index, comment } => {
                self.notes.push(format!("File {} comment: {}", index, comment));
                Reply::Done
            }
            Request::MakeDir { path } => {
                if self.files.contains_key(&trimmed(path)) {
                    return Reply::Failed("a file is in the way".to_string());
                }
                self.make_dir(path);
                Reply::Done
            }
            Request::ExtractEntry { index, path } => {
                match above(path) {
                    Some(dir) if self.dirs.contains(&dir) => {}
                    _ => return Reply::Failed("no such directory".to_string()),
                }
                let mut bytes = Vec::new();
                let mut file = match self.archive.as_mut().unwrap().by_index(*index) {
                    Ok(file) => file,
                    Err(e) => return Reply::Failed(e.to_string()),
                };
                if let Err(e) = file.read_to_end(&mut bytes) {
                    return Reply::Failed(e.to_string());
                }
                self.files.insert(path.clone(), bytes);
                Reply::Done
            }
            Request::SetMode { path, mode } => {
                self.modes.insert(trimmed(path), *mode);
                Reply::Done
            }
            Request::RemoveFile { path } => match self.files.remove(path) {
                Some(_) => Reply::Done,
                None => Reply::Failed("no such file".to_string()),
            },
            Request::RemoveTree { path } => {
                let dir = trimmed(path);
                if !self.dirs.contains(&dir) {
                    return Reply::Failed("no such directory".to_string());
                }
                let prefix = format!("{}/", dir);
                self.files.retain(|p, _| !p.starts_with(&prefix));
                self.dirs.retain(|p| !(p == &dir || p.starts_with(&prefix)));
                Reply::Done
            }
            Request::Succeed | Request::Fail(_) => Reply::Done,
        }
    }

    fn archive(&mut self, start: (Archiver, Request)) -> Result<(), ArchiveError> {
        let (mut job, mut request) = start;
        loop {
            match request {
                Request::Succeed => return Ok(()),
                Request::Fail(e) => return Err(e),
                other => {
                    let reply = self.perform(&other);
                    let next = job.advance(reply);
                    job = next.0;
                    request = next.1;
                }
            }
        }
    }

    fn extract(&mut self, start: (Extractor, Request)) -> Result<(), ArchiveError> {
        let (mut job, mut request) = start;
        loop {
            match request {
                Request::Succeed => return Ok(()),
                Request::Fail(e) => return Err(e),
                other => {
                    let reply = self.perform(&other);
                    let next = job.advance(reply);
                    job = next.0;
                    request = next.1;
                }
            }
        }
    }
}

fn tree() -> MemoryHost {
    let mut host = MemoryHost::new();
    host.put("/srv/gm/drop/a.txt", b"alpha");
    host.put("/srv/gm/drop/sub/b.bin", &[0u8, 1, 2, 3, 255]);
    host.put("/srv/gm/drop/sub/deep/init.lua.txt", b"print('hi')");
    host.put("/srv/gm/drop/empty.txt", b"");
    host.make_dir("/srv/gm/drop/hollow");
    host.put("/srv/gm/other/outside.txt", b"not mine");
    host
}

#[test]
fn a_tree_archived_and_extracted_comes_back_with_lua_txt_renamed() {
    let mut host = tree();
    assert_eq!(host.archive(Archiver::folder(ROOT, "out.zip", "drop", None)), Ok(()));
    assert_eq!(
        host.extract(Extractor::unzip(ROOT, "out.zip", Some("fresh"), true, None)),
        Ok(())
    );
    let mut expected: BTreeMap<String, Vec<u8>> = BTreeMap::new();
    expected.insert("a.txt".to_string(), b"alpha".to_vec());
    expected.insert("sub/b.bin".to_string(), vec![0u8, 1, 2, 3, 255]);
    expected.insert("sub/deep/init.lua".to_string(), b"print('hi')".to_vec());
    expected.insert("empty.txt".to_string(), Vec::new());
    assert_eq!(host.below("/srv/gm/fresh"), expected);
    assert_eq!(host.below("/srv/gm/drop").len(), 4);
    assert!(host.files.contains_key("/srv/gm/out.zip"));
}

#[test]
fn a_tree_without_lua_txt_comes_back_unchanged() {
    let mut host = MemoryHost::new();
    host.put("/srv/gm/drop/readme.md", b"# read me");
    host.put("/srv/gm/drop/lua/init.lua", b"return 1");
    host.put("/srv/gm/drop/x/y/z/deep.dat", &[9u8; 300]);
    let before = host.below("/srv/gm/drop");
    assert_eq!(host.archive(Archiver::folder(ROOT, "out.zip", "drop", None)), Ok(()));
    assert_eq!(host.extract(Extractor::unzip(ROOT, "out.zip", None, true, None)), Ok(()));
    assert_eq!(host.below("/srv/gm/out"), before);
}

#[test]
fn the_archive_of_a_tree_names_its_files_relative_to_the_folder() {
    let mut host = tree();
    assert_eq!(host.archive(Archiver::folder(ROOT, "out.zip", "drop/", None)), Ok(()));
    assert_eq!(
        host.entry_names("/srv/gm/out.zip"),
        vec!["a.txt", "empty.txt", "sub/b.bin", "sub/deep/init.lua"]
    );
    assert_eq!(host.entry_bytes("/srv/gm/out.zip", "sub/deep/init.lua"), b"print('hi')");
}

#[test]
fn named_files_are_archived_under_their_stored_names() {
    let mut host = MemoryHost::new();
    host.put("/srv/gm/a.txt", b"alpha");
    host.put("/srv/gm/b.lua.txt", b"beta");
    let entries = vec![
        Named::Plain("a.txt".to_string()),
        Named::Renamed {
            path: "b.lua.txt".to_string(),
            archive_path: "b.lua.txt".to_string(),
        },
    ];
    assert_eq!(host.archive(Archiver::files(ROOT, "pack.zip", &entries, None)), Ok(()));
    assert_eq!(host.entry_names("/srv/gm/pack.zip"), vec!["a.txt", "b.lua"]);
    assert_eq!(host.entry_bytes("/srv/gm/pack.zip", "a.txt"), b"alpha");
    assert_eq!(host.entry_bytes("/srv/gm/pack.zip", "b.lua"), b"beta");
}

#[test]
fn an_empty_list_creates_no_archive() {
    let mut host = MemoryHost::new();
    assert_eq!(host.archive(Archiver::files(ROOT, "pack.zip", &vec![], None)), Ok(()));
    assert!(!host.files.contains_key("/srv/gm/pack.zip"));
    assert!(host.log.is_empty());
}

#[test]
fn an_empty_folder_creates_a_valid_empty_archive() {
    let mut host = MemoryHost::new();
    host.make_dir("/srv/gm/drop");
    assert_eq!(host.archive(Archiver::folder(ROOT, "out.zip", "drop", None)), Ok(()));
    assert_eq!(host.entry_names("/srv/gm/out.zip"), Vec::<String>::new());
    assert_eq!(host.extract(Extractor::unzip(ROOT, "out.zip", None, true, None)), Ok(()));
}

#[test]
fn a_missing_member_is_left_out_and_the_others_are_archived() {
    let mut host = MemoryHost::new();
    host.put("/srv/gm/a.txt", b"alpha");
    host.put("/srv/gm/c.txt", b"gamma");
    host.make_dir("/srv/gm/some_dir");
    let entries = vec![
        Named::Plain("a.txt".to_string()),
        Named::Plain("b.txt".to_string()),
        Named::Plain("some_dir".to_string()),
        Named::Plain("c.txt".to_string()),
    ];
    assert_eq!(host.archive(Archiver::files(ROOT, "pack.zip", &entries, None)), Ok(()));
    assert_eq!(host.entry_names("/srv/gm/pack.zip"), vec!["a.txt", "c.txt"]);
}

#[test]
fn a_folder_is_deleted_after_it_was_archived() {
    let mut host = MemoryHost::new();
    host.put("/srv/gm/drop/only.txt", b"one");
    assert_eq!(host.archive(Archiver::folder(ROOT, "out.zip", "drop", Some(true))), Ok(()));
    assert_eq!(host.entry_names("/srv/gm/out.zip"), vec!["only.txt"]);
    assert_eq!(host.entry_bytes("/srv/gm/out.zip", "only.txt"), b"one");
    assert!(!host.dirs.contains("/srv/gm/drop"));
    assert!(host.below("/srv/gm/drop").is_empty());
}

#[test]
fn a_folder_is_kept_when_archiving_fails() {
    let mut host = MemoryHost::new();
    host.put("/srv/gm/drop/only.txt", b"one");
    host.strays.push("/srv/gm/drop/../other/outside.txt".to_string());
    assert_eq!(
        host.archive(Archiver::folder(ROOT, "out.zip", "drop", Some(true))),
        Err(ArchiveError::Traversal)
    );
    assert!(host.dirs.contains("/srv/gm/drop"));
    assert_eq!(host.below("/srv/gm/drop").len(), 1);
    assert!(!host.log.iter().any(|r| matches!(r, Request::RemoveTree { .. })));
}

#[test]
fn a_folder_is_kept_without_a_request_to_delete() {
    let mut host = MemoryHost::new();
    host.put("/srv/gm/drop/only.txt", b"one");
    assert_eq!(host.archive(Archiver::folder(ROOT, "out.zip", "drop", None)), Ok(()));
    assert!(host.dirs.contains("/srv/gm/drop"));
}

#[test]
fn a_folder_that_is_not_there_is_not_found() {
    let mut host = MemoryHost::new();
    assert_eq!(
        host.archive(Archiver::folder(ROOT, "out.zip", "drop", None)),
        Err(ArchiveError::NotFound)
    );
    assert!(!host.files.contains_key("/srv/gm/out.zip"));
}

#[test]
fn a_traversal_is_refused_before_the_host_is_touched() {
    let mut host = tree();
    assert_eq!(
        host.archive(Archiver::folder(ROOT, "out.zip", "drop/../other", None)),
        Err(ArchiveError::Traversal)
    );
    assert_eq!(
        host.archive(Archiver::folder(ROOT, "../out.zip", "drop", None)),
        Err(ArchiveError::Traversal)
    );
    assert_eq!(
        host.extract(Extractor::unzip(ROOT, "../out.zip", None, true, None)),
        Err(ArchiveError::Traversal)
    );
    assert!(host.log.is_empty());
}

#[test]
fn a_named_file_with_a_parent_component_is_never_opened() {
    let mut host = tree();
    host.put("/srv/secret.txt", b"secret");
    host.put("/srv/gm/a.txt", b"alpha");
    let entries = vec![
        Named::Plain("a.txt".to_string()),
        Named::Plain("../secret.txt".to_string()),
    ];
    assert_eq!(
        host.archive(Archiver::files(ROOT, "pack.zip", &entries, None)),
        Err(ArchiveError::Traversal)
    );
    assert!(!host.log.iter().any(|r| match r {
        Request::ProbeFile { path } => path.contains(".."),
        Request::StoreFile { source, .. } => source.contains(".."),
        _ => false,
    }));
}

#[test]
fn named_files_are_deleted_after_they_were_archived() {
    let mut host = MemoryHost::new();
    host.put("/srv/gm/a.txt", b"alpha");
    let entries = vec![Named::Plain("a.txt".to_string())];
    assert_eq!(host.archive(Archiver::files(ROOT, "pack.zip", &entries, Some(true))), Ok(()));
    assert!(!host.files.contains_key("/srv/gm/a.txt"));
    assert_eq!(host.entry_bytes("/srv/gm/pack.zip", "a.txt"), b"alpha");
}

#[test]
fn extraction_makes_every_directory_it_needs() {
    let mut host = MemoryHost::new();
    host.put("/srv/gm/drop/x/y/z/deep.dat", b"deep");
    assert_eq!(host.archive(Archiver::folder(ROOT, "out.zip", "drop", None)), Ok(()));
    assert!(!host.dirs.contains("/srv/gm/far"));
    assert_eq!(
        host.extract(Extractor::unzip(ROOT, "out.zip", Some("far/away/target"), true, None)),
        Ok(())
    );
    assert!(host.dirs.contains("/srv/gm/far/away/target/x/y/z"));
    assert_eq!(host.files["/srv/gm/far/away/target/x/y/z/deep.dat"], b"deep");
}

#[test]
fn extraction_applies_the_stored_mode() {
    let mut host = MemoryHost::new();
    host.put("/srv/gm/drop/run.sh", b"#!/bin/sh");
    assert_eq!(host.archive(Archiver::folder(ROOT, "out.zip", "drop", None)), Ok(()));
    assert_eq!(host.extract(Extractor::unzip(ROOT, "out.zip", None, true, None)), Ok(()));
    assert_eq!(host.modes.get("/srv/gm/out/run.sh"), Some(&0o100644));
}

#[test]
fn extraction_sets_no_mode_where_the_host_knows_none() {
    let mut host = MemoryHost::new();
    host.put("/srv/gm/drop/run.sh", b"#!/bin/sh");
    assert_eq!(host.archive(Archiver::folder(ROOT, "out.zip", "drop", None)), Ok(()));
    assert_eq!(host.extract(Extractor::unzip(ROOT, "out.zip", None, false, None)), Ok(()));
    assert!(host.modes.is_empty());
    assert_eq!(host.files["/srv/gm/out/run.sh"], b"#!/bin/sh");
}

#[test]
fn extraction_skips_entries_that_would_leave_the_target() {
    let mut host = MemoryHost::new();
    let mut writer = ZipWriter::new(Cursor::new(Vec::new()));
    writer.start_file("../evil.txt", FileOptions::default()).unwrap();
    writer.write_all(b"evil").unwrap();
    writer.start_file("/abs.txt", FileOptions::default()).unwrap();
    writer.write_all(b"abs").unwrap();
    writer.add_directory("made/", FileOptions::default()).unwrap();
    writer.start_file("good.txt", FileOptions::default()).unwrap();
    writer.write_all(b"good").unwrap();
    host.put("/srv/gm/in.zip", &writer.finish().unwrap().into_inner());
    assert_eq!(host.extract(Extractor::unzip(ROOT, "in.zip", None, true, None)), Ok(()));
    let mut expected: BTreeMap<String, Vec<u8>> = BTreeMap::new();
    expected.insert("good.txt".to_string(), b"good".to_vec());
    assert_eq!(host.below("/srv/gm/in"), expected);
    assert!(host.dirs.contains("/srv/gm/in/made"));
    assert!(!host.files.contains_key("/srv/gm/evil.txt"));
    assert!(!host.files.contains_key("/abs.txt"));
}

#[test]
fn the_archive_is_deleted_after_it_was_extracted() {
    let mut host = MemoryHost::new();
    host.put("/srv/gm/drop/only.txt", b"one");
    assert_eq!(host.archive(Archiver::folder(ROOT, "out.zip", "drop", None)), Ok(()));
    assert_eq!(host.extract(Extractor::unzip(ROOT, "out.zip", None, true, Some(true))), Ok(()));
    assert!(!host.files.contains_key("/srv/gm/out.zip"));
    assert_eq!(host.files["/srv/gm/out/only.txt"], b"one");
}

#[test]
fn the_archive_is_kept_when_its_extraction_fails() {
    let mut host = MemoryHost::new();
    host.put("/srv/gm/drop/dir/only.txt", b"one");
    assert_eq!(host.archive(Archiver::folder(ROOT, "out.zip", "drop", None)), Ok(()));
    host.put("/srv/gm/out/dir", b"a file where a directory has to be");
    assert_eq!(
        host.extract(Extractor::unzip(ROOT, "out.zip", None, true, Some(true))),
        Err(ArchiveError::Io("a file is in the way".to_string()))
    );
    assert!(host.files.contains_key("/srv/gm/out.zip"));
}

#[test]
fn what_is_no_archive_cannot_be_extracted() {
    let mut host = MemoryHost::new();
    host.put("/srv/gm/out.zip", b"this is no zip container");
    let result = host.extract(Extractor::unzip(ROOT, "out.zip", None, true, Some(true)));
    assert!(matches!(result, Err(ArchiveError::Io(_))));
    assert!(host.files.contains_key("/srv/gm/out.zip"));
}

#[test]
fn a_pattern_that_the_listing_refuses_is_reported() {
    let mut host = MemoryHost::new();
    host.put("/srv/gm/dr[op/a.txt", b"alpha");
    let result = host.archive(Archiver::folder(ROOT, "out.zip", "dr[op", None));
    assert!(matches!(result, Err(ArchiveError::GlobPattern(_))));
}
