use notes::text::decimal_string;
use notes::text::from_chars;
use notes::text::has_part;
use notes::text::has_suffix;
use notes::text::join;
use notes::text::repeat;
use notes::text::replace;
use notes::text::same_text;
use notes::text::signed_decimal_string;
use notes::text::split;
use notes::text::to_chars;

#[test]
fn split_keeps_empty_lines() {
    assert_eq!(split(""), vec![""]);
    assert_eq!(split("a"), vec!["a"]);
    assert_eq!(split("\n"), vec!["", ""]);
    assert_eq!(split("a\n\nb\n"), vec!["a", "", "b", ""]);
}

#[test]
fn split_agrees_with_the_standard_library() {
    for text in ["", "\n\n", "one\ntwo", "\r\n x \n", "h\u{e9}\n\u{1f680}\n"] {
        let expected: Vec<String> = text.split("\n").map(|s| s.to_string()).collect();
        assert_eq!(split(text), expected);
    }
}

#[test]
fn join_undoes_split() {
    for text in ["", "\n", "a\nb", "\n\na\n\n"] {
        assert_eq!(join(&split(text)), text);
    }
    assert_eq!(join(&vec![]), "");
    assert_eq!(join(&vec!["a".to_string(), "".to_string(), "b".to_string()]), "a\n\nb");
}

#[test]
fn chars_round_trip() {
    let chars = to_chars("h\u{e9}llo");
    assert_eq!(chars, vec!['h', '\u{e9}', 'l', 'l', 'o']);
    assert_eq!(from_chars(&chars, 1, 4), "\u{e9}ll");
    assert_eq!(from_chars(&chars, 2, 2), "");
}

#[test]
fn suffix_and_part() {
    assert!(has_suffix("a.md", ".md"));
    assert!(has_suffix(".md", ".md"));
    assert!(has_suffix("x", ""));
    assert!(!has_suffix("md", ".md"));
    assert!(!has_suffix("a.mdx", ".md"));
    assert!(has_part("/r/.git/x", ".git"));
    assert!(has_part("abc", ""));
    assert!(has_part("", ""));
    assert!(!has_part("ab", "abc"));
    assert!(!has_part("/r/git", ".git"));
    assert!(has_part("aab", "ab"));
}

#[test]
fn replace_agrees_with_the_standard_library() {
    let cases = [
        ("About Rsync", "Rsync", "<Rsync>"),
        ("aaa", "aa", "b"),
        ("abab", "ab", ""),
        ("abc", "", "-"),
        ("", "", "-"),
        ("", "a", "-"),
        ("abc", "abcd", "x"),
        ("h\u{e9}h\u{e9}", "\u{e9}", "e"),
        ("aXbXc", "X", "XX"),
    ];
    for (text, from, to) in cases {
        assert_eq!(replace(text, from, to), text.replace(from, to));
    }
    assert_eq!(replace("abc", "", "-"), "-a-b-c-");
    assert_eq!(replace("aaa", "aa", "b"), "ba");
}

#[test]
fn decimal_agrees_with_the_standard_library() {
    for n in [0u128, 1, 9, 10, 11, 99, 100, 12345, u64::MAX as u128, u128::MAX] {
        assert_eq!(decimal_string(n), n.to_string());
    }
    for n in [0i64, 1, -1, 10, -10, 255, -256, i32::MIN as i64, i64::MAX, i64::MIN] {
        assert_eq!(signed_decimal_string(n), n.to_string());
    }
}

#[test]
fn repeat_and_same_text() {
    assert_eq!(repeat("  ", 0), "");
    assert_eq!(repeat("  ", 3), "      ");
    assert_eq!(repeat("ab", 2), "abab");
    assert!(same_text("new", "new"));
    assert!(same_text("", ""));
    assert!(!same_text("new", "news"));
    assert!(!same_text("new", "naw"));
}
