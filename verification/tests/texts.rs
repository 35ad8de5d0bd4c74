use gm_zip::path::{is_parent_marker, split_components};
use gm_zip::locate::split_names;
use gm_zip::text::{
    chars_of, contains_char, extend_chars, matches_at, replace_chars, replace_each, same_chars,
    string_of, string_of_range,
};

fn chars(text: &str) -> Vec<char> {
    text.chars().collect()
}

#[test]
fn strings_and_characters_convert_both_ways() {
    assert_eq!(chars_of("a/ß/日本"), chars("a/ß/日本"));
    assert_eq!(chars_of(""), Vec::<char>::new());
    assert_eq!(string_of(&chars("a/ß/日本")), "a/ß/日本");
    assert_eq!(string_of_range(&chars("hello world"), 6, 11), "world");
    assert_eq!(string_of_range(&chars("hello"), 2, 2), "");
}

#[test]
fn a_pattern_is_found_where_it_stands() {
    let text = chars("init.lua.txt");
    assert!(matches_at(&text, 4, &chars(".lua")));
    assert!(matches_at(&text, 8, &chars(".txt")));
    assert!(matches_at(&text, 12, &chars("")));
    assert!(!matches_at(&text, 5, &chars(".lua")));
    assert!(!matches_at(&text, 9, &chars(".txt")));
    assert!(!matches_at(&text, 13, &chars("")));
    assert!(!matches_at(&chars("ab"), 0, &chars("abc")));
}

#[test]
fn replacing_goes_from_the_left_and_does_not_overlap() {
    assert_eq!(replace_chars(&chars("aaaa"), &chars("aa"), &chars("b")), chars("bb"));
    assert_eq!(replace_chars(&chars("aaa"), &chars("aa"), &chars("b")), chars("ba"));
    assert_eq!(replace_chars(&chars("abc"), &chars("x"), &chars("y")), chars("abc"));
    assert_eq!(replace_chars(&chars("abc"), &chars(""), &chars("y")), chars("abc"));
    assert_eq!(replace_chars(&chars(""), &chars("a"), &chars("b")), chars(""));
    assert_eq!(replace_chars(&chars("a.b.c"), &chars("."), &chars("")), chars("abc"));
}

#[test]
fn single_characters_are_replaced_everywhere() {
    assert_eq!(replace_each(&chars("a\\b\\c"), '\\', '/'), chars("a/b/c"));
    assert_eq!(replace_each(&chars("abc"), 'x', 'y'), chars("abc"));
}

#[test]
fn characters_are_appended_and_compared() {
    let mut out = chars("ab");
    extend_chars(&mut out, &chars("cd"));
    assert_eq!(out, chars("abcd"));
    assert!(same_chars(&chars("abc"), &chars("abc")));
    assert!(!same_chars(&chars("abc"), &chars("abd")));
    assert!(!same_chars(&chars("abc"), &chars("ab")));
    assert!(contains_char(&chars("a\0b"), '\0'));
    assert!(!contains_char(&chars("ab"), '\0'));
}

#[test]
fn components_are_the_runs_between_separators() {
    assert_eq!(split_components(&chars("a/b\\c")), vec![chars("a"), chars("b"), chars("c")]);
    assert_eq!(split_components(&chars("/a//b/")), vec![
        chars(""),
        chars("a"),
        chars(""),
        chars("b"),
        chars(""),
    ]);
    assert_eq!(split_components(&chars("")), vec![chars("")]);
    assert_eq!(split_components(&chars("abc")), vec![chars("abc")]);
}

#[test]
fn names_are_the_components_that_name_something() {
    assert_eq!(split_names(&chars("/a//./b/../c/")), vec![
        chars("a"),
        chars("b"),
        chars(".."),
        chars("c"),
    ]);
    assert_eq!(split_names(&chars("")), Vec::<Vec<char>>::new());
    assert_eq!(split_names(&chars("./.")), Vec::<Vec<char>>::new());
}

#[test]
fn only_two_dots_are_the_parent_marker() {
    assert!(is_parent_marker(&chars("..")));
    assert!(!is_parent_marker(&chars(".")));
    assert!(!is_parent_marker(&chars("...")));
    assert!(!is_parent_marker(&chars("a.")));
    assert!(!is_parent_marker(&chars("")));
}
