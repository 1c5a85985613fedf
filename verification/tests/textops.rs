use coriander_bot::msgfmt::chars_of;
use coriander_bot::textops::{replace_all, split_ascii_ws, trim_query_marks};

#[test]
fn replace_matches_std_behaviour() {
    let cases = [
        ("hello world", "world", "there"),
        ("aaa", "aa", "b"),
        ("aaaa", "aa", ""),
        ("no match", "zzz", "y"),
        ("", "", "x"),
        ("abc", "", "x"),
        ("ababab", "ab", "ba"),
        ("你好你好", "你好", "再见"),
        ("overlap", "overlap", "overlap"),
    ];
    for (s, from, to) in cases {
        assert_eq!(replace_all(s, from, to), s.replace(from, to), "case {s:?} {from:?} {to:?}");
    }
}

#[test]
fn replace_is_leftmost_and_non_overlapping() {
    assert_eq!(replace_all("aaa", "aa", "b"), "ba");
    assert_eq!(replace_all("banana", "ana", "X"), "bXna");
}

#[test]
fn trim_query_marks_removes_all_trailing() {
    assert_eq!(trim_query_marks("https://e.com/x???"), "https://e.com/x");
    assert_eq!(trim_query_marks("https://e.com/x?a=1"), "https://e.com/x?a=1");
    assert_eq!(trim_query_marks("???"), "");
    assert_eq!(trim_query_marks(""), "");
    assert_eq!(trim_query_marks("x"), "x");
}

#[test]
fn split_matches_std_behaviour() {
    let cases = ["  a  b\tc\nd ", "", "   ", "one", "词 语\r分 开", "a\x0Cb"];
    for s in cases {
        let mine: Vec<String> = split_ascii_ws(&chars_of(s))
            .into_iter()
            .map(|t| t.into_iter().collect())
            .collect();
        let std_split: Vec<String> = s.split_ascii_whitespace().map(|w| w.to_string()).collect();
        assert_eq!(mine, std_split, "case {s:?}");
    }
}
