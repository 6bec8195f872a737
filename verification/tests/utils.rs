use std::path::PathBuf;

use oprs::utils::{basename, locale_is_unicode};
use oprs::strings::parse_pid;

#[test]
fn utils_test_basename() {
    let path = PathBuf::from("/a/file.pid");
    assert_eq!("file.pid", basename(path.to_str().unwrap(), false).unwrap());
    assert_eq!("file", basename(path.to_str().unwrap(), true).unwrap());
}

#[test]
fn targets_test_basename() {
    let path = PathBuf::from("/a/file.pid");
    assert_eq!("file.pid", basename(path.to_str().unwrap(), false).unwrap());
    assert_eq!("file", basename(path.to_str().unwrap(), true).unwrap());
}

#[test]
fn basename_edge_cases() {
    assert_eq!(None, basename("/a/..", false));
    assert_eq!(Some(".bashrc".to_string()), basename("/home/.bashrc", true));
    assert_eq!(Some("archive.tar".to_string()), basename("archive.tar.gz", true));
    assert_eq!(Some("dir".to_string()), basename("/tmp/dir/", false));
    assert_eq!(Some("foo.txt".to_string()), basename("foo.txt/.", false));
    assert_eq!(Some("foo.txt".to_string()), basename("foo.txt/.//", false));
    assert_eq!(None, basename("/", false));
    assert_eq!(None, basename(".", false));
    assert_eq!(None, basename("", true));
    assert_eq!(None, basename("a/../", false));
}

#[test]
fn unicode_locales() {
    assert!(locale_is_unicode("en_US.UTF-8"));
    assert!(locale_is_unicode("fr_FR.utf8"));
    assert!(locale_is_unicode("C.UTF-8.extra"));
    assert!(!locale_is_unicode("en_US.ISO-8859-1"));
    assert!(!locale_is_unicode("C"));
    assert!(!locale_is_unicode("C.ut"));
    assert!(locale_is_unicode("a.b.utf8"));
    assert!(locale_is_unicode("de_DE.UtF-8"));
    assert!(!locale_is_unicode("utf8"));
    assert!(!locale_is_unicode(""));
}

#[test]
fn process_ids_in_files() {
    assert_eq!(Some(1234), parse_pid("1234\n"));
    assert_eq!(Some(42), parse_pid("  +42 "));
    assert_eq!(Some(-7), parse_pid("-7"));
    assert_eq!(Some(i32::MIN), parse_pid("-2147483648"));
    assert_eq!(None, parse_pid("2147483648"));
    assert_eq!(None, parse_pid("-+3"));
    assert_eq!(None, parse_pid("abc"));
    assert_eq!(None, parse_pid(""));
}
