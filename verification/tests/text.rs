//! The text utilities underneath the exclusion and inclusion rules.

use scope_rs::registry::extension_of;
use scope_rs::text::contains_substr;
use scope_rs::text::ends_with;
use scope_rs::text::rfind;
use scope_rs::text::str_eq;
use scope_rs::text::trim_blank;

#[test]
fn substring_containment() {
    assert!(contains_substr("root/.git/config", "/.git/"));
    assert!(!contains_substr("root/.git", "/.git/"));
    assert!(contains_substr("abc", ""));
    assert!(contains_substr("", ""));
    assert!(!contains_substr("", "a"));
    assert!(contains_substr("mygitrepo", "git"));
}

#[test]
fn suffix_matching() {
    assert!(ends_with("text/x-csrc", "x-csrc"));
    assert!(ends_with("x-csrc", "x-csrc"));
    assert!(!ends_with("x-csrc-extra", "x-csrc"));
    assert!(ends_with("anything", ""));
    assert!(!ends_with("", "a"));
}

#[test]
fn string_equality_is_exact() {
    assert!(str_eq("rs", "rs"));
    assert!(!str_eq("rs", "r"));
    assert!(!str_eq("s", "S"));
    assert!(str_eq("", ""));
}

#[test]
fn trimming_strips_surrounding_blanks() {
    assert_eq!(trim_blank("text/x-csrc\n"), "text/x-csrc");
    assert_eq!(trim_blank("\t  spaced out \r\n"), "spaced out");
    assert_eq!(trim_blank("   \n"), "");
    assert_eq!(trim_blank("solid"), "solid");
}

#[test]
fn last_occurrence() {
    assert_eq!(rfind("a/b/c.d", '/'), Some(3));
    assert_eq!(rfind("a/b/c.d", '.'), Some(5));
    assert_eq!(rfind("abc", '/'), None);
}

#[test]
fn extension_extraction() {
    assert_eq!(extension_of("a.c"), Some("c"));
    assert_eq!(extension_of("dir/sub/file.tar.gz"), Some("gz"));
    assert_eq!(extension_of("noext"), None);
    assert_eq!(extension_of(".bashrc"), None);
    assert_eq!(extension_of("dir/.hidden"), None);
    assert_eq!(extension_of("dir/.hidden.swp"), Some("swp"));
    assert_eq!(extension_of("trailing."), Some(""));
}
