use theseus::decimal::{parse_u32, parse_u64, print_u64};
use theseus::names::{NameMap, NameSet};
use theseus::order::{sorted_union, text_before};
use theseus::paths::{
    has_component_prefix, join_path, path_components, path_extension, path_file_name, path_keys,
    path_parent_name, paths_equal,
};
use theseus::text::{
    contains_char, ends_with, replace_char, segment_before, split, starts_with, to_ascii_lower,
    trim, white_space,
};

fn texts(items: &[&str]) -> Vec<String> {
    items.iter().map(|item| item.to_string()).collect()
}

#[test]
fn sets_hold_each_name_once() {
    let mut set = NameSet::new();
    assert!(set.is_empty());
    assert!(set.insert("a"));
    assert!(!set.insert("a"));
    assert!(set.contains("a"));
    set.extend(&texts(&["b", "a"]));
    assert_eq!(set.names(), &texts(&["a", "b"]));
    let copy = set.copy();
    assert!(set.remove("a"));
    assert!(!set.remove("a"));
    assert!(copy.contains("a"));
}

#[test]
fn maps_hold_one_value_for_a_name() {
    let mut map = NameMap::new();
    assert_eq!(map.insert("k", 1), None);
    assert_eq!(map.insert("k", 2), Some(1));
    assert_eq!(map.get("k"), Some(&2));
    assert!(map.contains_key("k"));
    assert_eq!(map.entries().len(), 1);
    assert_eq!(map.remove("k"), Some(2));
    assert_eq!(map.remove("k"), None);
    assert!(map.is_empty());
}

#[test]
fn numerals_are_read_as_the_standard_library_reads_them() {
    for text in ["", "+", "-", "0", "00", "+7", "-0", "4294967295", "4294967296", "1a", " 1", "١"] {
        assert_eq!(parse_u32(text), text.parse::<u32>().ok(), "{text}");
        assert_eq!(parse_u64(text), text.parse::<u64>().ok(), "{text}");
    }
    assert_eq!(parse_u64("18446744073709551615"), Some(u64::MAX));
    assert_eq!(parse_u64("18446744073709551616"), None);
    for number in [0, 9, 10, 1_000_000, u64::MAX] {
        assert_eq!(print_u64(number), number.to_string());
        assert_eq!(parse_u64(&print_u64(number)), Some(number));
    }
}

#[test]
fn lists_are_joined_in_order() {
    assert_eq!(
        sorted_union(&texts(&["b", "a", "b"]), &texts(&["c", "a"])),
        texts(&["a", "b", "c"])
    );
    for (a, b) in [("a", "b"), ("a", "ab"), ("", "a"), ("Z", "a"), ("é", "z"), ("a", "a")] {
        assert_eq!(text_before(a, b), a < b);
        assert_eq!(text_before(b, a), b < a);
    }
}

#[test]
fn paths_are_taken_apart_as_the_standard_library_does() {
    for path in ["", "/", "a", "/a/b", "a//b/", "./a", "a/./b", "../a", "a/..", ".", "/.", "//a"] {
        let std_path = std::path::Path::new(path);
        let components: Vec<String> = std_path
            .components()
            .map(|component| component.as_os_str().to_string_lossy().to_string())
            .collect();
        assert_eq!(path_components(path, false), components, "{path}");
        assert_eq!(
            path_file_name(path, false),
            std_path.file_name().map(|name| name.to_string_lossy().to_string()),
            "{path}"
        );
        assert_eq!(
            path_parent_name(path, false),
            std_path
                .parent()
                .and_then(std::path::Path::file_name)
                .map(|name| name.to_string_lossy().to_string()),
            "{path}"
        );
    }
    for path in ["a.txt", ".a", "a.", "a.b.c", "d.e/f", "a", "..", ".a.b"] {
        assert_eq!(
            path_extension(path, false),
            std::path::Path::new(path)
                .extension()
                .map(|ending| ending.to_string_lossy().to_string()),
            "{path}"
        );
    }
    for (base, sub) in [
        ("/a", "b"),
        ("/a/", "b"),
        ("", "b"),
        ("/", "b"),
        ("/a", "/b"),
        ("/a", ""),
        ("", ""),
    ] {
        assert_eq!(
            join_path(base, sub, false),
            std::path::Path::new(base).join(sub).to_string_lossy()
        );
    }
    assert!(has_component_prefix(&path_components("/a/b", false), &path_components("/a", false)));
    assert!(!has_component_prefix(&path_components("/ab", false), &path_components("/a", false)));
}

#[test]
fn texts_are_handled_as_the_standard_library_does() {
    for (s, sep) in [("a/b//c", '/'), ("", '/'), ("/", '/'), ("abc", '/')] {
        assert_eq!(split(s, sep), s.split(sep).map(str::to_string).collect::<Vec<_>>());
        assert_eq!(segment_before(s, sep), s.split(sep).next().unwrap());
    }
    assert!(starts_with("abc", "ab") && !starts_with("abc", "b") && starts_with("abc", ""));
    assert!(ends_with("abc", "bc") && !ends_with("abc", "b") && ends_with("abc", ""));
    assert!(contains_char("abc", 'b') && !contains_char("abc", 'd'));
    assert_eq!(replace_char("a\\b\\", '\\', '/'), "a/b/");
    assert_eq!(to_ascii_lower("AbÇ1"), "AbÇ1".to_ascii_lowercase());
    for s in [" a b ", "\u{3000}x\u{85}", "", "\t\n", "\u{200b}a"] {
        assert_eq!(trim(s), s.trim(), "{s:?}");
    }
    for code in 0..0x11_0000u32 {
        if let Some(c) = char::from_u32(code) {
            assert_eq!(white_space(c), c.is_whitespace(), "{code:x}");
        }
    }
}

#[test]
fn paths_of_windows_are_taken_apart() {
    for (path, components) in [
        ("C:\\a\\b", vec!["C:", "\\", "a", "b"]),
        ("C:/a/b", vec!["C:", "\\", "a", "b"]),
        ("C:a", vec!["C:", "a"]),
        ("C:", vec!["C:"]),
        ("C:\\", vec!["C:", "\\"]),
        ("C:.", vec!["C:"]),
        ("\\a", vec!["\\", "a"]),
        ("a\\.\\b/..", vec!["a", "b", ".."]),
        (".\\a", vec![".", "a"]),
        ("a\\C:", vec!["a", "C:"]),
        ("", vec![]),
        ("\\\\server\\share\\a", vec!["\\\\server\\share", "\\", "a"]),
        ("//server/share/a", vec!["//server/share", "\\", "a"]),
        ("\\\\server\\share", vec!["\\\\server\\share", "\\"]),
        ("\\\\server", vec!["\\", "server"]),
        ("\\\\.\\COM42", vec!["\\\\.\\COM42", "\\"]),
        ("\\\\?\\C:\\a\\.\\b/c", vec!["\\\\?\\C:", "\\", "a", ".", "b/c"]),
        ("\\\\?\\UNC\\server\\share\\a", vec!["\\\\?\\UNC\\server\\share", "\\", "a"]),
        ("\\\\?\\pics\\a", vec!["\\\\?\\pics", "\\", "a"]),
        ("//?/C:/a", vec!["//?/C:", "\\", "a"]),
    ] {
        assert_eq!(path_components(path, true), components, "{path}");
    }
    for (path, name, parent, extension) in [
        ("C:\\a\\b.txt", Some("b.txt"), Some("a"), Some("txt")),
        ("C:\\b", Some("b"), None, None),
        ("C:b.jar", Some("b.jar"), None, Some("jar")),
        ("C:\\", None, None, None),
        ("C:", None, None, None),
        ("a/b\\..", None, Some("b"), None),
        ("\\\\server\\share", None, None, None),
        ("\\\\server\\share\\a", Some("a"), None, None),
    ] {
        assert_eq!(path_file_name(path, true).as_deref(), name, "{path}");
        assert_eq!(path_parent_name(path, true).as_deref(), parent, "{path}");
        assert_eq!(path_extension(path, true).as_deref(), extension, "{path}");
    }
    for (base, sub, joined) in [
        ("C:\\a", "b", "C:\\a\\b"),
        ("C:\\a/", "b", "C:\\a/b"),
        ("C:", "b", "C:b"),
        ("C:\\a", "D:\\b", "D:\\b"),
        ("C:\\a", "D:b", "D:b"),
        ("C:\\a", "\\b", "C:\\b"),
        ("C:\\a", "/b", "C:/b"),
        ("a", "", "a\\"),
        ("\\\\server\\share", "a", "\\\\server\\share\\a"),
        ("\\\\?\\C:\\a", "b/../c", "\\\\?\\C:\\a\\c"),
        ("\\\\?\\C:\\a", "\\b", "\\\\?\\C:\\b"),
        ("\\\\?\\C:\\a\\\\", "./b", "\\\\?\\C:\\a\\b"),
        ("\\\\?\\C:", "b", "\\\\?\\C:\\b"),
    ] {
        assert_eq!(join_path(base, sub, true), joined, "{base} {sub}");
    }
}

#[test]
fn paths_are_compared_by_their_components() {
    assert!(paths_equal("/a/b", "/a//b/", false));
    assert!(paths_equal("/a/./b", "/a/b", false));
    assert!(!paths_equal("/a/b", "/a/B", false));
    assert!(!paths_equal("/a/b", "/a", false));
    assert!(!paths_equal("a\\b", "a/b", false));
    assert!(paths_equal("a\\b", "a/b", true));
    assert!(paths_equal("c:\\a", "C:/a", true));
    assert!(!paths_equal("c:\\a", "C:\\A", true));
    assert!(!paths_equal("C:a", "C:\\a", true));
    assert!(paths_equal("//server/share/a", "\\\\server\\share\\a", true));
    assert!(paths_equal("\\\\?\\c:\\a", "\\\\?\\C:\\a", true));
    assert!(!paths_equal("\\\\?\\C:\\a", "C:\\a", true));
    assert!(has_component_prefix(&path_keys("c:/a/b", true), &path_keys("C:\\a", true)));
}
