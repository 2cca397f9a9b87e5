use std::path::PathBuf;

use raindrop_sync::config::{expand_tilde, Config, RawConfig};
use raindrop_sync::paths::join_path;

const HOME: &str = "/home/tester";

#[test]
fn test_expand_tilde_replaces_home() {
    let home = HOME.to_string();
    let result = expand_tilde("~/Documents/foo.json", Some(&home));
    assert_eq!(
        PathBuf::from(result),
        PathBuf::from(&home).join("Documents/foo.json")
    );
}

#[test]
fn test_expand_tilde_leaves_absolute_path_unchanged() {
    let result = expand_tilde("/absolute/path/file.json", Some(HOME));
    assert_eq!(PathBuf::from(result), PathBuf::from("/absolute/path/file.json"));
}

#[test]
fn test_expand_tilde_leaves_relative_path_unchanged() {
    let result = expand_tilde("relative/path.json", Some(HOME));
    assert_eq!(PathBuf::from(result), PathBuf::from("relative/path.json"));
}

#[test]
fn test_from_raw_uses_default_when_no_path() {
    let config = Config::from_raw(RawConfig { output_path: None }, Some(HOME));
    let path_str = config.output_path;
    assert!(path_str.ends_with("bookmarks.json"));
    assert!(path_str.contains("Continual Study and Research"));
}

#[test]
fn test_from_raw_uses_provided_path() {
    let config = Config::from_raw(
        RawConfig {
            output_path: Some("/tmp/my_bookmarks.json".to_string()),
        },
        Some(HOME),
    );
    assert_eq!(PathBuf::from(config.output_path), PathBuf::from("/tmp/my_bookmarks.json"));
}

#[test]
fn expand_tilde_without_home_leaves_path() {
    assert_eq!(expand_tilde("~/notes.json", None), "~/notes.json");
}

#[test]
fn expand_tilde_needs_the_slash() {
    assert_eq!(expand_tilde("~notes.json", Some(HOME)), "~notes.json");
    assert_eq!(expand_tilde("~", Some(HOME)), "~");
}

#[test]
fn expand_tilde_of_bare_home_dir() {
    assert_eq!(expand_tilde("~/", Some(HOME)), "/home/tester/");
}

#[test]
fn expand_tilde_with_home_ending_in_slash() {
    assert_eq!(expand_tilde("~/a.json", Some("/home/tester/")), "/home/tester/a.json");
}

#[test]
fn from_raw_default_path_is_expanded_in_full() {
    let config = Config::from_raw(RawConfig { output_path: None }, Some(HOME));
    assert_eq!(
        config.output_path,
        "/home/tester/Documents/Projects/Continual Study and Research/bookmarks.json"
    );
}

#[test]
fn from_raw_expands_a_configured_tilde_path() {
    let config = Config::from_raw(
        RawConfig {
            output_path: Some("~/b.json".to_string()),
        },
        Some(HOME),
    );
    assert_eq!(config.output_path, "/home/tester/b.json");
}

#[test]
fn join_path_cases() {
    assert_eq!(join_path("/tmp", "file.bk"), "/tmp/file.bk");
    assert_eq!(join_path("/tmp/", "file.bk"), "/tmp/file.bk");
    assert_eq!(join_path("/tmp", "/etc"), "/etc");
    assert_eq!(join_path("", "file.bk"), "file.bk");
    assert_eq!(join_path("a", ""), "a/");
    assert_eq!(join_path("dir", "sub/file"), "dir/sub/file");
}

#[test]
fn join_path_agrees_with_pathbuf() {
    for (base, rest) in [("/tmp", "x"), ("/tmp/", "x"), ("/tmp", "/x"), ("rel", "x/y")] {
        assert_eq!(
            PathBuf::from(join_path(base, rest)),
            PathBuf::from(base).join(rest)
        );
    }
}

#[test]
fn expanding_twice_is_expanding_once() {
    for p in ["~/a/b.json", "/abs.json", "rel.json", "~/", "~x"] {
        let once = expand_tilde(p, Some(HOME));
        assert_eq!(expand_tilde(&once, Some(HOME)), once);
    }
}
