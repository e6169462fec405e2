use hostpilot::transfer;
use hostpilot::transfer::helpers::{
    display_path, has_glob, is_disallowed_glob, is_remote_spec, is_windows_drive,
};
use hostpilot::transfer::{normalize_path, wildcard_match};

#[test]
fn test_wildcard_match_simple() {
    assert!(transfer::wildcard_match("*.txt", "file.txt"));
    assert!(transfer::wildcard_match("data-??.bin", "data-01.bin"));
    assert!(!transfer::wildcard_match("a*b", "ac"));
}

#[test]
fn normalize_empty() {
    assert_eq!(normalize_path("", true), "");
    assert_eq!(normalize_path("", false), "");
}

#[test]
fn normalize_windows_drive_keeps_drive() {
    // Drive letter paths should convert backslashes but keep drive prefix
    let in_s = "C:\\path\\to\\file";
    assert_eq!(normalize_path(in_s, false), "C:/path/to/file");
}

#[test]
fn preserve_and_strip_trailing_slash() {
    assert_eq!(normalize_path("/a/b/", true), "/a/b/");
    assert_eq!(normalize_path("/a/b/", false), "/a/b");
    // root should remain "/"
    assert_eq!(normalize_path("/", true), "/");
    assert_eq!(normalize_path("/", false), "/");
}

#[test]
fn collapse_repeated_slashes() {
    assert_eq!(normalize_path("//a///b//c", false), "/a/b/c");
}

#[test]
fn glob_chars_preserved() {
    // ensure '*' and '?' are not altered by normalization
    assert_eq!(normalize_path("/some/dir/*.log", false), "/some/dir/*.log");
    assert_eq!(normalize_path("..\\foo\\?.txt", false), "../foo/?.txt");
}

#[test]
fn normalize_unc_and_relative_dots() {
    // UNC path (Windows network share) - backslashes should convert to '/'
    // leading '//' will be collapsed to '/'
    assert_eq!(normalize_path("\\\\server\\share\\dir", false), "/server/share/dir");
    // relative path with dot segments should retain segment text (no resolution)
    assert_eq!(normalize_path(".\\a\\..\\b", false), "./a/../b");
}

#[test]
fn is_remote_and_disallowed_glob_cases() {
    // remote spec detection
    assert!(is_remote_spec("user@host:/path"));
    assert!(is_remote_spec("host:folder/file"));
    assert!(!is_remote_spec("C:\\path\\to\\file"));
    assert!(!is_remote_spec("just-a-name"));

    // disallowed glob
    assert!(is_disallowed_glob("a/**/b"));
    assert!(is_disallowed_glob("a/*/b/c"));
    assert!(!is_disallowed_glob("a/b/*.txt"));
}

#[test]
fn display_path_uses_normalize() {
    let s = format!("{}", display_path("C:\\some\\path\\"));
    assert_eq!(s, "C:/some/path/");
}

#[test]
fn wildcards_take_any_run_and_one_character() {
    assert!(wildcard_match("*", ""));
    assert!(wildcard_match("", ""));
    assert!(!wildcard_match("", "a"));
    assert!(!wildcard_match("?", ""));
    assert!(wildcard_match("?", "é"));
    assert!(wildcard_match("a*b*c", "a--b--b--c"));
    assert!(!wildcard_match("a*b*c", "a--c--b"));
    assert!(wildcard_match("**", "anything"));
    assert!(wildcard_match("plain", "plain"));
    assert!(!wildcard_match("plain", "plainer"));
}

#[test]
fn long_patterns_are_matched_quickly() {
    let pattern = "a*a*a*a*a*a*a*a*a*a*a*a*a*a*a*b";
    let text = "a".repeat(60);
    assert!(!wildcard_match(pattern, &text));
    assert!(wildcard_match(pattern, &(text.clone() + "b")));
}

#[test]
fn normal_forms_are_stable_and_slashes_at_the_end_fall_away() {
    for p in ["a//b\\c/", "/", "//", "a", "\\\\x\\", "./a/./b//", "~"] {
        for keep in [true, false] {
            let once = normalize_path(p, keep);
            assert_eq!(normalize_path(&once, keep), once);
        }
        assert_eq!(normalize_path(&format!("{}/", p), false), normalize_path(p, false));
    }
}

#[test]
fn drives_and_remote_names() {
    assert!(is_windows_drive("c:"));
    assert!(!is_windows_drive("é:"));
    assert!(!is_windows_drive("1:x"));
    assert!(!is_remote_spec("./a:b"));
    assert!(is_remote_spec("ab:"));
    assert!(!is_remote_spec("a:"));
    assert!(is_remote_spec("ab:c/d:e"));
    assert!(has_glob("a?b"));
    assert!(!has_glob("ab"));
    assert!(is_disallowed_glob("**"));
    assert!(!is_disallowed_glob("*"));
    assert!(is_disallowed_glob("?/a"));
}
