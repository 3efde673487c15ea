use drt_tools::strings::{
    contains, ends_with, join_strings, parse_u64_str, space_char, split_lines, split_once_str, split_words,
    starts_with, trim_str,
};

#[test]
fn string_helpers() {
    assert!(starts_with("linux-signed", "linux"));
    assert!(!starts_with("lin", "linux"));
    assert!(ends_with("zathura_tpu", "_tpu"));
    assert!(contains("gcc-14-cross", "cross"));
    assert!(contains("abc", ""));
    assert!(!contains("abc", "abd"));
    assert_eq!(split_once_str("a_b_c", '_'), Some(("a".to_string(), "b_c".to_string())));
    assert_eq!(split_once_str("abc", '_'), None);
    assert_eq!(split_words("  a\tb \n c  ", false), vec!["a", "b", "c"]);
    assert_eq!(split_words("a\u{a0}b", false), vec!["a", "b"]);
    assert_eq!(split_words("a\u{a0}b", true), vec!["a\u{a0}b"]);
    assert!(split_words("   ", true).is_empty());
    assert!(space_char('\u{2003}', false));
    assert!(!space_char('\u{2003}', true));
    assert_eq!(trim_str("  x y \n"), "x y");
    assert_eq!(split_lines("a\r\nb\n\nc"), vec!["a", "b", "", "c"]);
    assert_eq!(split_lines("a\n"), vec!["a"]);
    assert!(split_lines("").is_empty());
    assert_eq!(join_strings(&vec!["a".to_string(), "b".to_string()], ", "), "a, b");
    assert_eq!(join_strings(&vec![], ", "), "");
    assert_eq!(parse_u64_str("18446744073709551615"), Some(u64::MAX));
    assert_eq!(parse_u64_str("18446744073709551616"), None);
    assert_eq!(parse_u64_str("+7"), Some(7));
    assert_eq!(parse_u64_str("-7"), None);
    assert_eq!(parse_u64_str(""), None);
}
