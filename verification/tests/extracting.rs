use gm_zip::error::ArchiveError;
use gm_zip::extractor::{ends_with_separator, parent_needed, Extractor};
use gm_zip::protocol::{Reply, Request};

const ROOT: &str = "/srv/gm/";

fn entry(name: &str, comment: &str, mode: Option<u32>) -> Reply {
    Reply::Entry { name: name.to_string(), comment: comment.to_string(), mode }
}

fn make_dir(path: &str) -> Request {
    Request::MakeDir { path: path.to_string() }
}

fn extract(index: usize, path: &str) -> Request {
    Request::ExtractEntry { index, path: path.to_string() }
}

fn set_mode(path: &str, mode: u32) -> Request {
    Request::SetMode { path: path.to_string(), mode }
}

fn io(text: &str) -> Request {
    Request::Fail(ArchiveError::Io(text.to_string()))
}

fn drive(start: (Extractor, Request), replies: Vec<Reply>) -> Vec<Request> {
    let (mut job, first) = start;
    let mut asked = vec![first];
    for reply in replies {
        let next = job.advance(reply);
        job = next.0;
        asked.push(next.1);
    }
    asked
}

#[test]
fn the_target_defaults_to_the_archive_without_its_extension() {
    let asked = drive(
        Extractor::unzip(ROOT, "maps/pack.zip", None, true, None),
        vec![Reply::Opened { entries: 1 }, entry("a.txt", "", None), Reply::Done, Reply::Done],
    );
    assert_eq!(
        asked,
        vec![
            Request::OpenArchive { path: "/srv/gm/maps/pack.zip".to_string() },
            Request::ReadEntry { index: 0 },
            make_dir("/srv/gm/maps/pack"),
            extract(0, "/srv/gm/maps/pack/a.txt"),
            Request::Succeed,
        ]
    );
}

#[test]
fn a_named_target_is_resolved_against_the_root() {
    let asked = drive(
        Extractor::unzip(ROOT, "pack.zip", Some("fresh/out"), true, None),
        vec![Reply::Opened { entries: 1 }, entry("a.txt", "", None)],
    );
    assert_eq!(asked.last(), Some(&make_dir("/srv/gm/fresh/out")));
}

#[test]
fn an_archive_without_entries_is_done_at_once() {
    let asked = drive(
        Extractor::unzip(ROOT, "pack.zip", None, true, None),
        vec![Reply::Opened { entries: 0 }],
    );
    assert_eq!(
        asked,
        vec![Request::OpenArchive { path: "/srv/gm/pack.zip".to_string() }, Request::Succeed]
    );
}

#[test]
fn directories_files_comments_and_modes() {
    let asked = drive(
        Extractor::unzip(ROOT, "pack.zip", Some("fresh"), true, None),
        vec![
            Reply::Opened { entries: 2 },
            entry("docs/", "", Some(0o755)),
            Reply::Done,
            Reply::Done,
            entry("docs/deep/readme.txt", "hello", Some(0o644)),
            Reply::Done,
            Reply::Done,
            Reply::Done,
            Reply::Done,
        ],
    );
    assert_eq!(
        asked,
        vec![
            Request::OpenArchive { path: "/srv/gm/pack.zip".to_string() },
            Request::ReadEntry { index: 0 },
            make_dir("/srv/gm/fresh/docs/"),
            set_mode("/srv/gm/fresh/docs/", 0o755),
            Request::ReadEntry { index: 1 },
            Request::Note { index: 1, comment: "hello".to_string() },
            make_dir("/srv/gm/fresh/docs/deep"),
            extract(1, "/srv/gm/fresh/docs/deep/readme.txt"),
            set_mode("/srv/gm/fresh/docs/deep/readme.txt", 0o644),
            Request::Succeed,
        ]
    );
}

#[test]
fn a_backslash_at_the_end_names_a_directory() {
    let asked = drive(
        Extractor::unzip(ROOT, "pack.zip", Some("fresh"), true, None),
        vec![Reply::Opened { entries: 1 }, entry("docs\\", "", None)],
    );
    assert_eq!(asked.last(), Some(&make_dir("/srv/gm/fresh/docs\\")));
}

#[test]
fn modes_are_left_alone_where_the_host_knows_none() {
    let asked = drive(
        Extractor::unzip(ROOT, "pack.zip", Some("fresh"), false, None),
        vec![
            Reply::Opened { entries: 2 },
            entry("a.txt", "", Some(0o600)),
            Reply::Done,
            Reply::Done,
            entry("b/", "", Some(0o700)),
            Reply::Done,
        ],
    );
    assert_eq!(
        asked,
        vec![
            Request::OpenArchive { path: "/srv/gm/pack.zip".to_string() },
            Request::ReadEntry { index: 0 },
            make_dir("/srv/gm/fresh"),
            extract(0, "/srv/gm/fresh/a.txt"),
            Request::ReadEntry { index: 1 },
            make_dir("/srv/gm/fresh/b/"),
            Request::Succeed,
        ]
    );
}

#[test]
fn an_entry_that_would_leave_the_target_is_skipped() {
    let asked = drive(
        Extractor::unzip(ROOT, "pack.zip", Some("fresh"), true, None),
        vec![
            Reply::Opened { entries: 4 },
            entry("../evil.txt", "look at me", Some(0o777)),
            entry("/etc/passwd", "", None),
            entry("a/../../evil.txt", "", None),
            entry("ok.txt", "", None),
            Reply::Done,
            Reply::Done,
        ],
    );
    assert_eq!(
        asked,
        vec![
            Request::OpenArchive { path: "/srv/gm/pack.zip".to_string() },
            Request::ReadEntry { index: 0 },
            Request::ReadEntry { index: 1 },
            Request::ReadEntry { index: 2 },
            Request::ReadEntry { index: 3 },
            make_dir("/srv/gm/fresh"),
            extract(3, "/srv/gm/fresh/ok.txt"),
            Request::Succeed,
        ]
    );
}

#[test]
fn a_name_that_climbs_and_comes_back_is_extracted_as_it_is() {
    let asked = drive(
        Extractor::unzip(ROOT, "pack.zip", Some("fresh"), true, None),
        vec![Reply::Opened { entries: 1 }, entry("a/../b.txt", "", None), Reply::Done],
    );
    assert_eq!(
        asked[2..],
        [make_dir("/srv/gm/fresh/a/.."), extract(0, "/srv/gm/fresh/a/../b.txt")]
    );
}

#[test]
fn a_failed_log_line_does_not_stop_the_extraction() {
    let asked = drive(
        Extractor::unzip(ROOT, "pack.zip", Some("fresh"), true, None),
        vec![
            Reply::Opened { entries: 1 },
            entry("a.txt", "note", None),
            Reply::Failed("no console".to_string()),
            Reply::Done,
            Reply::Done,
        ],
    );
    assert_eq!(
        asked[2..],
        [
            Request::Note { index: 0, comment: "note".to_string() },
            make_dir("/srv/gm/fresh"),
            extract(0, "/srv/gm/fresh/a.txt"),
            Request::Succeed,
        ]
    );
}

#[test]
fn the_archive_is_deleted_on_request_after_the_last_entry() {
    let asked = drive(
        Extractor::unzip(ROOT, "pack.zip", None, true, Some(true)),
        vec![
            Reply::Opened { entries: 1 },
            entry("a.txt", "", None),
            Reply::Done,
            Reply::Done,
            Reply::Done,
        ],
    );
    assert_eq!(
        asked[asked.len() - 3..],
        [
            extract(0, "/srv/gm/pack/a.txt"),
            Request::RemoveFile { path: "/srv/gm/pack.zip".to_string() },
            Request::Succeed,
        ]
    );
}

#[test]
fn the_archive_is_deleted_even_when_the_last_entry_is_skipped() {
    let asked = drive(
        Extractor::unzip(ROOT, "pack.zip", None, true, Some(true)),
        vec![Reply::Opened { entries: 1 }, entry("../evil", "", None), Reply::Done],
    );
    assert_eq!(
        asked[2..],
        [Request::RemoveFile { path: "/srv/gm/pack.zip".to_string() }, Request::Succeed]
    );
}

#[test]
fn the_archive_is_kept_when_an_entry_fails() {
    let asked = drive(
        Extractor::unzip(ROOT, "pack.zip", None, true, Some(true)),
        vec![
            Reply::Opened { entries: 2 },
            entry("a.txt", "", None),
            Reply::Done,
            Reply::Failed("disk full".to_string()),
        ],
    );
    assert_eq!(asked.last(), Some(&io("disk full")));
    assert!(!asked.iter().any(|r| matches!(r, Request::RemoveFile { .. })));
}

#[test]
fn the_archive_is_kept_without_a_request() {
    for delete in [None, Some(false)] {
        let asked = drive(
            Extractor::unzip(ROOT, "pack.zip", None, true, delete),
            vec![Reply::Opened { entries: 0 }],
        );
        assert_eq!(asked.last(), Some(&Request::Succeed));
    }
}

#[test]
fn every_failure_of_the_host_ends_the_extraction() {
    let open = drive(
        Extractor::unzip(ROOT, "pack.zip", None, true, None),
        vec![Reply::Failed("not a zip".to_string())],
    );
    assert_eq!(open.last(), Some(&io("not a zip")));
    let read = drive(
        Extractor::unzip(ROOT, "pack.zip", None, true, None),
        vec![Reply::Opened { entries: 1 }, Reply::Failed("bad entry".to_string())],
    );
    assert_eq!(read.last(), Some(&io("bad entry")));
    let dir = drive(
        Extractor::unzip(ROOT, "pack.zip", None, true, None),
        vec![
            Reply::Opened { entries: 1 },
            entry("d/", "", None),
            Reply::Failed("denied".to_string()),
        ],
    );
    assert_eq!(dir.last(), Some(&io("denied")));
    let mode = drive(
        Extractor::unzip(ROOT, "pack.zip", None, true, None),
        vec![
            Reply::Opened { entries: 1 },
            entry("d/", "", Some(0o700)),
            Reply::Done,
            Reply::Failed("not permitted".to_string()),
        ],
    );
    assert_eq!(mode.last(), Some(&io("not permitted")));
    let remove = drive(
        Extractor::unzip(ROOT, "pack.zip", None, true, Some(true)),
        vec![Reply::Opened { entries: 0 }, Reply::Failed("busy".to_string())],
    );
    assert_eq!(remove.last(), Some(&io("busy")));
}

#[test]
fn an_archive_path_with_a_parent_component_fails_before_anything_is_asked() {
    let (job, request) = Extractor::unzip(ROOT, "../pack.zip", None, true, None);
    assert_eq!(request, Request::Fail(ArchiveError::Traversal));
    assert!(job.is_finished());
}

#[test]
fn a_target_with_a_parent_component_fails_before_anything_is_asked() {
    let (_, request) = Extractor::unzip(ROOT, "pack.zip", Some("a/../.."), true, Some(true));
    assert_eq!(request, Request::Fail(ArchiveError::Traversal));
}

#[test]
fn the_reader_takes_paths_as_they_are() {
    let (_, request) =
        Extractor::read("/in/pack.zip".to_string(), "/out".to_string(), true, false);
    assert_eq!(request, Request::OpenArchive { path: "/in/pack.zip".to_string() });
    let (_, request) =
        Extractor::read("/in/pack.zip".to_string(), "/out/..".to_string(), true, false);
    assert_eq!(request, Request::Fail(ArchiveError::Traversal));
}

#[test]
fn a_reply_that_does_not_fit_ends_the_extraction() {
    let asked =
        drive(Extractor::unzip(ROOT, "pack.zip", None, true, None), vec![Reply::Done]);
    assert_eq!(asked.last(), Some(&io("unexpected reply from the host")));
    let after = drive(
        Extractor::unzip(ROOT, "pack.zip", None, true, None),
        vec![Reply::Opened { entries: 0 }, Reply::Done],
    );
    assert_eq!(after.last(), Some(&io("unexpected reply from the host")));
}

#[test]
fn names_that_end_with_a_separator() {
    assert!(ends_with_separator("docs/"));
    assert!(ends_with_separator("docs\\"));
    assert!(ends_with_separator("/"));
    assert!(!ends_with_separator("docs"));
    assert!(!ends_with_separator(""));
}

#[test]
fn the_directory_to_make_for_a_file() {
    assert_eq!(parent_needed("/srv/gm/fresh/a.txt"), Some("/srv/gm/fresh".to_string()));
    assert_eq!(parent_needed("/a.txt"), Some("/".to_string()));
    assert_eq!(parent_needed("a.txt"), None);
    assert_eq!(parent_needed(""), None);
}
