//! Texts and numbers in them.

use hft_pipeline::keyed::Keyed;
use hft_pipeline::text::{
    before_first, begins_with, contains_text, ends_with, i64_to_text, is_white_space, join_with,
    parse_i64,
    split_first, split_on, trim, trim_end, trim_start,
};

#[test]
fn integers_read_back() {
    for v in [i64::MIN, -10, -1, 0, 9, 10, i64::MAX] {
        assert_eq!(i64_to_text(v), v.to_string());
        assert_eq!(parse_i64(&i64_to_text(v)), Some(v));
    }
}

#[test]
fn integers_are_read_as_std_reads_them() {
    let texts = [
        "", "+", "-", "+1", "-0", "007", "1_0", " 1", "9223372036854775807", "9223372036854775808",
        "-9223372036854775808", "-9223372036854775809", "\u{661}", "0x1", "--1",
    ];
    for s in texts {
        assert_eq!(parse_i64(s), s.parse::<i64>().ok(), "{s}");
    }
}

#[test]
fn white_space_is_what_unicode_says() {
    for c in '\0'..=char::MAX {
        assert_eq!(is_white_space(c), c.is_whitespace(), "{}", c as u32);
    }
}

#[test]
fn splitting_and_joining_undo_each_other() {
    for s in ["", "a", ",", "a,b", ",a,,b,", "\u{e9},\u{1f600}"] {
        let parts = split_on(s, ',');
        assert_eq!(parts, s.split(',').collect::<Vec<_>>());
        assert_eq!(join_with(&parts, ","), s);
    }
    assert_eq!(split_first("a b c", ' '), Some(("a", "b c")));
    assert_eq!(split_first("abc", ' '), None);
    assert_eq!(before_first("a@b@c", '@'), "a");
}

#[test]
fn parts_are_found() {
    assert!(contains_text("abcabd", "abd"));
    assert!(contains_text("", ""));
    assert!(!contains_text("ab", "abc"));
    assert!(begins_with("abc", "ab"));
    assert!(!begins_with("abc", "b"));
    assert!(ends_with("file.npz", ".npz"));
    assert!(!ends_with("npz", ".npz"));
    assert!(!ends_with("file.npz ", ".npz"));
    assert!(ends_with("x", ""));
}

#[test]
fn white_space_is_trimmed_as_std_trims_it() {
    for s in ["", " a ", "\t\r\na b\u{3000}", "\u{a0}\u{2003}x", "\u{200b}x", "a"] {
        assert_eq!(trim(s), s.trim());
        assert_eq!(trim_start(s), s.trim_start());
        assert_eq!(trim_end(s), s.trim_end());
    }
}

#[test]
fn entries_are_kept_by_key() {
    let mut entries: Keyed<i32> = Keyed::new();
    assert_eq!(entries.get("a"), None);
    entries.set("a", 1);
    entries.set("b", 2);
    entries.set("a", 3);
    assert_eq!((entries.get("a"), entries.get("b")), (Some(3), Some(2)));
}
