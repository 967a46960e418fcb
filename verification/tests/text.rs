use mega_downloader::decimal::{decimal_i64, decimal_u64, parse_i64, parse_usize};
use mega_downloader::text::{
    bytes_in, chars_of, is_blank, join_all, listed, same_text, segments_of, set_of, trimmed,
    white_space,
};

#[test]
fn white_space_is_that_of_std() {
    for c in '\u{0}'..=char::MAX {
        assert_eq!(white_space(c), c.is_whitespace(), "{:?}", c);
    }
}

#[test]
fn trimming_like_std_does() {
    for s in ["", " ", " a b ", "\t\n\u{2003}x\u{85}", "x", "\u{feff}x "] {
        assert_eq!(trimmed(s), s.trim());
        assert_eq!(is_blank(s), s.trim().is_empty());
    }
}

#[test]
fn splitting_and_joining() {
    assert_eq!(segments_of("/a//b/c/"), vec!["a", "b", "c"]);
    assert!(segments_of("//").is_empty());
    let list = vec!["a".to_string(), "b".to_string()];
    assert_eq!(join_all(&list, ", "), "a, b");
    assert_eq!(join_all(&Vec::new(), ", "), "");
}

#[test]
fn comparing_texts() {
    assert!(same_text("äb", "äb"));
    assert!(!same_text("ab", "abc"));
    let list = vec!["a".to_string(), "b".to_string()];
    assert!(listed(&list, "b"));
    assert!(!listed(&list, "c"));
    let set = set_of(&list);
    assert!(set.contains("a"));
    assert!(!set.contains("ab"));
    assert_eq!(chars_of("aß"), vec!['a', 'ß']);
    assert_eq!(bytes_in("aß"), 3);
}

#[test]
fn decimal_numbers_like_std_writes_them() {
    for n in [0u64, 7, 10, 1234567890, u64::MAX] {
        assert_eq!(decimal_u64(n), n.to_string());
    }
    for n in [0i64, -1, 42, i64::MIN, i64::MAX] {
        assert_eq!(decimal_i64(n), n.to_string());
        assert_eq!(parse_i64(&n.to_string()), Some(n));
    }
}

#[test]
fn numbers_are_read_like_std_reads_them() {
    for s in [
        "", "-", "+", "0", "-0", "+7", "007", "12a", " 1", "9223372036854775807",
        "9223372036854775808", "-9223372036854775808", "-9223372036854775809",
        "18446744073709551615", "18446744073709551616", "--1", "+-1", "٣",
    ] {
        assert_eq!(parse_i64(s), s.parse::<i64>().ok(), "{s}");
        assert_eq!(parse_usize(s), s.parse::<usize>().ok(), "{s}");
    }
}
