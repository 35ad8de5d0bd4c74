use gm_zip::enclosed::is_enclosed_name;
use gm_zip::locate::{parent_dir, relative_path, strip_extension};
use gm_zip::path::{is_path_transversal, resolve};

#[test]
fn parent_marker_is_found_between_separators() {
    assert!(is_path_transversal(".."));
    assert!(is_path_transversal("../a"));
    assert!(is_path_transversal("a/.."));
    assert!(is_path_transversal("a/../b"));
    assert!(is_path_transversal("a\\..\\b"));
    assert!(is_path_transversal("/root/x/../y.txt"));
}

#[test]
fn dots_inside_names_are_no_parent_marker() {
    assert!(!is_path_transversal(""));
    assert!(!is_path_transversal("a/b/c.txt"));
    assert!(!is_path_transversal("a/..b"));
    assert!(!is_path_transversal("a../b"));
    assert!(!is_path_transversal("..."));
    assert!(!is_path_transversal("./a"));
    assert!(!is_path_transversal("a/.../b"));
}

#[test]
fn resolve_joins_with_one_separator() {
    assert_eq!(resolve("/srv/gm/", "data/a.txt"), "/srv/gm/data/a.txt");
    assert_eq!(resolve("/srv/gm", "data/a.txt"), "/srv/gm/data/a.txt");
    assert_eq!(resolve("C:\\gm\\", "a.txt"), "C:\\gm\\a.txt");
    assert_eq!(resolve("", "a.txt"), "a.txt");
    assert_eq!(resolve("/srv/gm", ""), "/srv/gm/");
}

#[test]
fn resolve_lets_a_rooted_path_replace_the_root() {
    assert_eq!(resolve("/srv/gm/", "/etc/passwd"), "/etc/passwd");
}

#[test]
fn resolve_does_not_normalise() {
    assert_eq!(resolve("/srv/gm/", "a/../b"), "/srv/gm/a/../b");
    assert!(is_path_transversal(&resolve("/srv/gm/", "a/../b")));
    assert!(is_path_transversal(&resolve("/srv/gm", "..")));
}

#[test]
fn enclosed_names() {
    assert!(is_enclosed_name("a.txt"));
    assert!(is_enclosed_name("dir/a.txt"));
    assert!(is_enclosed_name("dir/../a.txt"));
    assert!(is_enclosed_name("dir/"));
    assert!(is_enclosed_name("./a"));
    assert!(is_enclosed_name(""));
    assert!(!is_enclosed_name("../a.txt"));
    assert!(!is_enclosed_name("dir/../../a.txt"));
    assert!(!is_enclosed_name("/etc/passwd"));
    assert!(!is_enclosed_name("\\windows"));
    assert!(!is_enclosed_name("a\0b"));
    assert!(!is_enclosed_name("a/./../../b"));
}

#[test]
fn parent_directories() {
    assert_eq!(parent_dir("a/b/c.txt"), Some("a/b".to_string()));
    assert_eq!(parent_dir("a/b/"), Some("a".to_string()));
    assert_eq!(parent_dir("/a"), Some("/".to_string()));
    assert_eq!(parent_dir("a"), Some("".to_string()));
    assert_eq!(parent_dir("/"), None);
    assert_eq!(parent_dir(""), None);
    assert_eq!(parent_dir("a//b"), Some("a".to_string()));
    assert_eq!(parent_dir("C:\\x\\y.exe"), Some("C:\\x".to_string()));
}

#[test]
fn extensions_are_stripped_from_the_last_name() {
    assert_eq!(strip_extension("maps/pack.zip"), "maps/pack");
    assert_eq!(strip_extension("pack.tar.gz"), "pack.tar");
    assert_eq!(strip_extension("pack"), "pack");
    assert_eq!(strip_extension("dir.d/pack"), "dir.d/pack");
    assert_eq!(strip_extension(".hidden"), ".hidden");
    assert_eq!(strip_extension("pack.zip/"), "pack");
    assert_eq!(strip_extension("pack."), "pack");
    assert_eq!(strip_extension("a/.."), "a/..");
    assert_eq!(strip_extension(""), "");
}

#[test]
fn relative_paths_are_joined_by_slashes() {
    assert_eq!(relative_path("/srv/gm/drop", "/srv/gm/drop/a/b.txt"), Some("a/b.txt".to_string()));
    assert_eq!(relative_path("/srv/gm/drop/", "/srv/gm/drop/a"), Some("a".to_string()));
    assert_eq!(relative_path("/srv/gm/./drop", "/srv/gm/drop\\a\\b"), Some("a/b".to_string()));
    assert_eq!(relative_path("/srv/gm/drop", "/srv/gm/drop"), Some("".to_string()));
    assert_eq!(relative_path("/srv/gm/drop", "/srv/gm/other/a"), None);
    assert_eq!(relative_path("/srv/gm/drop", "srv/gm/drop/a"), None);
    assert_eq!(relative_path("/srv/gm/drop/x", "/srv/gm/drop"), None);
}
