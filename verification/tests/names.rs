use mega_downloader::names::{
    archive_name, is_reserved_device_name, sanitize_segment, sanitized_segments,
};
use mega_downloader::paths::{
    depth, local_path_in, push_path, strip_prefix, to_long_path, to_slashes,
};
use std::path::{Path, PathBuf};

#[test]
fn sanitizes_invalid_chars() {
    assert_eq!(sanitize_segment("a/b:c*?"), "a_b_c__");
    assert_eq!(sanitize_segment("trailing. "), "trailing");
    assert_eq!(sanitize_segment("ok name.mp4"), "ok name.mp4");
    // `..` must never survive as a path segment (traversal).
    assert_eq!(sanitize_segment(".."), "_");
}

#[test]
fn sanitizes_reserved_device_names() {
    assert_eq!(sanitize_segment("CON"), "_CON");
    assert_eq!(sanitize_segment("con.mp4"), "_con.mp4");
    assert_eq!(sanitize_segment("COM1"), "_COM1");
    assert_eq!(sanitize_segment("LPT9.txt"), "_LPT9.txt");
    // Not reserved: COM0, or names merely containing/starting with these.
    assert_eq!(sanitize_segment("COM0"), "COM0");
    assert_eq!(sanitize_segment("CONCERT.mp4"), "CONCERT.mp4");
    assert_eq!(sanitize_segment("NULLABLE"), "NULLABLE");
}

#[test]
fn replaces_every_invalid_character() {
    assert_eq!(sanitize_segment("<>:\"/\\|?*"), "_________");
    assert_eq!(sanitize_segment("a\u{0}b\u{1f}c"), "a_b_c");
    assert_eq!(sanitize_segment("a\u{7f}b"), "a\u{7f}b");
    assert_eq!(sanitize_segment("наивно.mkv"), "наивно.mkv");
}

#[test]
fn empty_and_dotted_segments_become_underscores() {
    assert_eq!(sanitize_segment(""), "_");
    assert_eq!(sanitize_segment("."), "_");
    assert_eq!(sanitize_segment(" . . "), "_");
    assert_eq!(sanitize_segment("   "), "_");
}

#[test]
fn device_names_need_an_exact_stem() {
    for name in ["con", "Prn", "AUX", "nul", "com1", "Com9", "lpt1", "LPT5.a.b"] {
        assert!(is_reserved_device_name(name), "{name}");
    }
    for name in ["", "con1", "com", "com10", "com0", "com²", "lpt", "nul_", ".con", "comé"] {
        assert!(!is_reserved_device_name(name), "{name}");
    }
}

#[test]
fn sanitizing_twice_changes_nothing() {
    for name in ["a/b", "CON", "con.", "..", "x. .", "nul.txt", "ok"] {
        let once = sanitize_segment(name);
        assert_eq!(sanitize_segment(&once), once);
    }
}

#[test]
fn archive_names_skip_empty_segments() {
    assert_eq!(archive_name("/Root//sub/ file?.mkv "), "Root/sub/ file_.mkv");
    assert_eq!(archive_name(""), "");
    assert_eq!(archive_name("///"), "");
    assert_eq!(sanitized_segments("a//../CON"), vec!["a", "_", "_CON"]);
}

#[test]
fn local_paths_nest_under_the_root() {
    assert_eq!(local_path_in("/downloads", "Root/sub/a.mkv"), "/downloads/Root/sub/a.mkv");
    assert_eq!(local_path_in("/downloads/", "a"), "/downloads/a");
    assert_eq!(local_path_in("", "a/b"), "a/b");
    assert_eq!(local_path_in("/downloads", ""), "/downloads");
    assert_eq!(local_path_in("/downloads", "../../etc/passwd"), "/downloads/_/_/etc/passwd");
    assert_eq!(local_path_in("/downloads", "/etc/passwd"), "/downloads/etc/passwd");
}

#[test]
fn local_paths_agree_with_the_archive() {
    for rel in ["Root/sub/a.mkv", "Root//CON/b?.txt", "x/../y"] {
        assert_eq!(local_path_in("/d", rel), format!("/d/{}", archive_name(rel)));
    }
}

#[test]
fn distinct_safe_paths_have_distinct_places() {
    let rels = ["a/b", "ab", "a/b/c", "a/bc", "b/a"];
    for (i, a) in rels.iter().enumerate() {
        for b in rels.iter().skip(i + 1) {
            assert_ne!(local_path_in("/d", a), local_path_in("/d", b));
        }
    }
    // Names that differ only in what is replaced share a place.
    assert_eq!(local_path_in("/d", "a:b"), local_path_in("/d", "a?b"));
}

#[test]
fn folders_contain_their_files() {
    let folder = local_path_in("/d", "Root/CON");
    let file = local_path_in("/d", "Root/CON/x.mkv");
    assert!(Path::new(&file).starts_with(&folder));
}

#[test]
fn pushing_paths_like_std_does() {
    for (base, tail) in [
        ("/a", "b"),
        ("/a/", "b"),
        ("", "b"),
        ("a", "/b"),
        ("a", ""),
        ("/", "x/y"),
        ("a//", "b"),
    ] {
        let mut p = PathBuf::from(base);
        p.push(tail);
        assert_eq!(push_path(base, tail), p.to_str().unwrap(), "{base} {tail}");
    }
}

#[test]
fn stripping_prefixes_like_std_does() {
    for path in ["/a/b/c", "a/b", "./a/b", "/", "", "a//b/./c/", "/a/./b", "../a", "."] {
        for base in ["/a", "/a/", "a", "", "/", ".", "./a", "/a/b", "a/b", "..", "/ab", "a/./b"] {
            let expected = Path::new(path)
                .strip_prefix(base)
                .ok()
                .map(|p| p.to_str().unwrap().to_string());
            assert_eq!(strip_prefix(path, base), expected, "{path} {base}");
        }
    }
}

#[test]
fn components_are_counted_like_std_counts_them() {
    for path in ["/a/b/c", "a//b", "./a/b", "/", "", "a/./b/", "/a///", "..", "/./x"] {
        assert_eq!(depth(path), Path::new(path).components().count(), "{path}");
    }
    assert_eq!(to_slashes("a\\b/c\\"), "a/b/c/");
}

#[test]
fn short_windows_paths_stay_as_they_are() {
    assert_eq!(to_long_path("C:/a/b".to_string(), Some("C:\\a\\b")), "C:/a/b");
}

#[test]
fn long_windows_paths_get_the_extended_form() {
    let deep = "d".repeat(260);
    let path = format!("C:/root/./{deep}");
    let absolute = format!("C:\\root\\.\\{deep}");
    assert_eq!(
        to_long_path(path, Some(absolute.as_str())),
        format!("\\\\?\\C:\\root\\{deep}")
    );
}

#[test]
fn the_extended_form_starts_at_max_path() {
    let at = format!("C:\\{}", "x".repeat(257));
    let below = format!("C:\\{}", "x".repeat(256));
    assert_eq!(to_long_path(at.clone(), Some(at.as_str())), format!("\\\\?\\{at}"));
    assert_eq!(to_long_path(below.clone(), Some(below.as_str())), below);
}

#[test]
fn exotic_windows_paths_stay_as_they_are() {
    let unc = format!("\\\\server\\share\\{}", "x".repeat(300));
    assert_eq!(to_long_path(unc.clone(), Some(unc.as_str())), unc);
    assert_eq!(to_long_path(unc.clone(), None), unc);
    let already = format!("\\\\?\\C:\\{}", "x".repeat(300));
    assert_eq!(to_long_path(already.clone(), Some(already.as_str())), already);
}
