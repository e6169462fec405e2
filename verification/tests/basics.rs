use std::path::Path;

use hostpilot::number;
use hostpilot::paths;
use hostpilot::text;
use hostpilot::transfer::enumeration::path_below;

#[test]
fn white_space_is_that_of_std() {
    for n in 0..=0x10ffffu32 {
        if let Some(c) = char::from_u32(n) {
            assert_eq!(text::is_white_space(c), c.is_whitespace(), "{:x}", n);
        }
    }
}

#[test]
fn trimming_is_that_of_std() {
    for s in ["", " ", " a ", "\u{3000}x\u{85}", "a b", "\t\r\n", "x"] {
        assert_eq!(text::trimmed(s), s.trim());
    }
    for s in ["", "/", "//a//", "a", "a/b/"] {
        assert_eq!(text::without_start(s, '/'), s.trim_start_matches('/'));
        assert_eq!(text::without_end(s, '/'), s.trim_end_matches('/'));
    }
}

#[test]
fn searching_is_that_of_std() {
    for (s, p) in [("", ""), ("abc", ""), ("abc", "bc"), ("aab", "ab"), ("abc", "abcd"), ("é日", "日")] {
        assert_eq!(text::contains_part(s, p), s.contains(p));
    }
    for (a, b) in [("", "a"), ("a", "b"), ("a", "ab"), ("b", "ab"), ("é", "z"), ("日", "\u{10000}"), ("x", "x")] {
        assert_eq!(text::comes_before(a, b), a < b);
        assert_eq!(text::comes_before(b, a), b < a);
        assert_eq!(text::same(a, b), a == b);
    }
    for s in ["", "\n", "a", "a\n", "a\r\nb", "a\rb", "\r\n", "a\r"] {
        assert_eq!(text::line_one(s).as_deref(), s.lines().next());
    }
    for s in ["", "a", "/a//b/", "x/y"] {
        let parts: Vec<String> = s.split('/').map(|p| p.to_string()).collect();
        assert_eq!(text::split_on(s, '/'), parts);
    }
}

#[test]
fn padding_is_that_of_std() {
    for s in ["", "ab", "日本", "abcdefgh"] {
        assert_eq!(text::flush_left(s, 5), format!("{:<5}", s));
        assert_eq!(text::flush_right(s, 5), format!("{:>5}", s));
        assert_eq!(text::clipped(s, 3), s.chars().take(3).collect::<String>());
    }
    assert_eq!(text::without_last("日本"), "日");
    assert_eq!(text::without_last(""), "");
}

#[test]
fn numbers_are_written_as_by_std() {
    for n in [0u64, 1, 9, 10, 99, 100, 65535, 1 << 53, u64::MAX] {
        assert_eq!(number::to_decimal(n), n.to_string());
        assert_eq!(number::to_hex(n as u128), format!("{:x}", n));
    }
    assert_eq!(number::to_hex(u128::MAX), format!("{:x}", u128::MAX));
    for n in [0i128, -1, 12, i64::MIN as i128, i64::MAX as i128, i128::MAX] {
        assert_eq!(number::to_decimal_signed(n), n.to_string());
    }
}

#[test]
fn numbers_are_read_as_by_std() {
    for s in [
        "", "+", "-", "0", "+0", "-0", "007", "65535", "65536", "99999999999999999999", "1a", " 1", "１",
        "-5", "++1", "9223372036854775807", "9223372036854775808", "-9223372036854775808",
        "-9223372036854775809", "18446744073709551615",
    ] {
        assert_eq!(number::parse_u16(s), s.parse::<u16>().ok(), "{}", s);
        assert_eq!(number::parse_i64(s), s.parse::<i64>().ok(), "{}", s);
        assert_eq!(number::parse_up_to(s, u64::MAX), s.parse::<u64>().ok(), "{}", s);
    }
}

#[test]
fn numbers_read_back() {
    for n in [0u64, 7, 10, 12345, u64::MAX] {
        assert_eq!(number::parse_up_to(&number::to_decimal(n), u64::MAX), Some(n));
    }
}

#[test]
fn paths_are_taken_apart_as_by_std() {
    for p in [
        "", "/", "//", "a", "a/", "a//", "/a", "/a/b", "a/b/c", "./a", "a/.", "a/./b", "a/..", "..", ".",
        "../x", "/..", "a//b", "/a/b/.", "~/x", ".hidden", "a.b.c", "x.", "/a/.b",
    ] {
        let path = Path::new(p);
        assert_eq!(
            paths::parent(p),
            path.parent().map(|q| q.to_string_lossy().to_string()),
            "parent of {:?}",
            p
        );
        assert_eq!(
            paths::file_name(p),
            path.file_name().map(|q| q.to_string_lossy().to_string()),
            "name of {:?}",
            p
        );
        if let Some(name) = path.file_name() {
            let name = name.to_string_lossy().to_string();
            let stem = Path::new(&name).file_stem().unwrap().to_string_lossy().to_string();
            assert_eq!(paths::file_stem(&name), stem);
        }
    }
}

#[test]
fn paths_are_joined_as_by_std() {
    for a in ["", "/", "a", "a/", "/x/y", "."] {
        for b in ["b", "", "/c", "d/e", "..", "./f"] {
            assert_eq!(paths::join(a, b), Path::new(a).join(b).to_string_lossy().to_string());
        }
    }
}

#[test]
fn joined_paths_come_apart_again() {
    let p = paths::join("/srv/data", "x.txt");
    assert_eq!(paths::parent(&p).as_deref(), Some("/srv/data"));
    assert_eq!(paths::file_name(&p).as_deref(), Some("x.txt"));
}

#[test]
fn paths_of_windows() {
    let p = paths::with_slashes("C:\\data\\project\\a.txt", true);
    assert_eq!(p, "C:/data/project/a.txt");
    assert_eq!(paths::parent(&p).as_deref(), Some("C:/data/project"));
    assert_eq!(paths::file_name(&p).as_deref(), Some("a.txt"));
    assert_eq!(path_below("C:/data", &p), "project/a.txt");
    assert_eq!(paths::with_slashes("a\\b", false), "a\\b");
}

#[test]
fn chains_of_directories() {
    assert_eq!(paths::chain("/a/b/c"), vec!["/", "/a", "/a/b", "/a/b/c"]);
    assert_eq!(paths::chain("a//b/./c/"), vec!["a", "a/b", "a/b/c"]);
    assert_eq!(paths::chain("/a/../b"), vec!["/", "/a", "/a", "/a/b"]);
    assert_eq!(paths::chain("/"), vec!["/"]);
    assert!(paths::chain("").is_empty());
    assert!(paths::chain(".").is_empty());
    assert!(paths::chain("..").is_empty());
}
